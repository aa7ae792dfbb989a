use receipt_money::address::Address;
use receipt_money::error::ReceiptErrorCode;
use receipt_money::ledger::{Ledger, TokenMetadataArgs};
use receipt_money::protocol::{DepositRequest, Protocol, RecordEntry};
use receipt_money::state::ReceiptState;

fn addr(tag: u8) -> Address {
    let mut bytes = [0u8; 32];
    bytes[0] = tag;
    bytes[31] = 0xA5;
    Address::new(bytes)
}

const PROGRAM: u8 = 1;
const USDC: u8 = 2;
const USDC_AUTHORITY: u8 = 3;
const SETUP_AUTHORITY: u8 = 4;
const USER_U: u8 = 10;
const USER_U_USDC: u8 = 11;
const USER_U_RECEIPT: u8 = 12;
const USER_V: u8 = 20;
const USER_V_USDC: u8 = 21;
const USER_V_RECEIPT: u8 = 22;

/// A book with USDC (6 decimals) and one funded USDC account per user.
fn book(u_funds: u64, v_funds: u64) -> Ledger {
    let mut l = Ledger::new();
    l.create_mint(&addr(USDC), 6, &addr(USDC_AUTHORITY), None, None).unwrap();
    l.create_account(&addr(USER_U_USDC), &addr(USDC), &addr(USER_U)).unwrap();
    l.create_account(&addr(USER_V_USDC), &addr(USDC), &addr(USER_V)).unwrap();
    l.mint_to(&addr(USDC), &addr(USER_U_USDC), u_funds, &addr(USDC_AUTHORITY)).unwrap();
    l.mint_to(&addr(USDC), &addr(USER_V_USDC), v_funds, &addr(USDC_AUTHORITY)).unwrap();
    l
}

/// A protocol with USDC set up and a receipt account for each user.
fn set_up(u_funds: u64, v_funds: u64) -> (Protocol, ReceiptState, Address) {
    let mut p = Protocol::new(addr(PROGRAM), book(u_funds, v_funds));
    let out = p.initialize(&addr(SETUP_AUTHORITY), &addr(USDC), &None).unwrap();
    let rec = p.records[0].state;
    p.ledger.create_account(&addr(USER_U_RECEIPT), &rec.crypto_receipt_mint, &addr(USER_U)).unwrap();
    p.ledger.create_account(&addr(USER_V_RECEIPT), &rec.crypto_receipt_mint, &addr(USER_V)).unwrap();
    (p, rec, out.state_address)
}

fn request(user: u8, from: u8, to: u8, rec: &ReceiptState, state: &Address, amount: u64) -> DepositRequest {
    DepositRequest {
        user: addr(user),
        user_token_account: addr(from),
        user_receipt_account: addr(to),
        receipt_state: *state,
        token_mint: rec.token_mint,
        token_mint_vault: rec.token_mint_vault,
        crypto_receipt_mint: rec.crypto_receipt_mint,
        amount,
    }
}

#[test]
fn initialize_creates_empty_record() {
    let mut p = Protocol::new(addr(PROGRAM), book(0, 0));
    let out = p.initialize(&addr(SETUP_AUTHORITY), &addr(USDC), &None).unwrap();
    assert_eq!(p.records.len(), 1);
    let rec = p.records[0].state;
    assert!(p.records[0].address == out.state_address);
    assert!(rec.authority == addr(SETUP_AUTHORITY));
    assert!(rec.token_mint == addr(USDC));
    assert_eq!(p.ledger.balance(&rec.token_mint_vault), Some(0));
    assert_eq!(p.ledger.supply(&rec.crypto_receipt_mint), Some(0));
    assert_eq!(p.ledger.balance(&rec.crypto_receipt_vault), Some(0));
    assert_eq!(out.metadata_lamports, 0);
    assert!(!p.ledger.has_metadata(&rec.crypto_receipt_mint));
}

#[test]
fn initialize_copies_decimals() {
    let (p, rec, _) = set_up(0, 0);
    assert_eq!(p.ledger.decimals(&rec.crypto_receipt_mint), Some(6));
    assert_eq!(p.ledger.decimals(&rec.crypto_receipt_mint), p.ledger.decimals(&addr(USDC)));
}

#[test]
fn initialize_puts_derived_authority_in_control() {
    let (p, rec, state) = set_up(0, 0);
    let (authority, bump) = ReceiptState::find_vault_authority(&addr(PROGRAM), &state).unwrap();
    assert_eq!(bump, rec.vault_authority_bump);
    let i = p.ledger.find_account(&rec.token_mint_vault).unwrap();
    assert!(p.ledger.accounts[i].owner == authority);
    let j = p.ledger.find_account(&rec.crypto_receipt_vault).unwrap();
    assert!(p.ledger.accounts[j].owner == authority);
    let m = p.ledger.find_mint(&rec.crypto_receipt_mint).unwrap();
    assert!(p.ledger.mints[m].mint_authority == authority);
    assert!(p.ledger.mints[m].freeze_authority == Some(authority));
}

#[test]
fn initialize_twice_is_duplicate_setup() {
    let mut p = Protocol::new(addr(PROGRAM), book(0, 0));
    p.initialize(&addr(SETUP_AUTHORITY), &addr(USDC), &None).unwrap();
    let again = p.initialize(&addr(USER_U), &addr(USDC), &None);
    assert_eq!(again.unwrap_err(), ReceiptErrorCode::DuplicateSetup);
    assert_eq!(p.records.len(), 1);
    assert_eq!(p.ledger.mints.len(), 2);
    assert_eq!(p.ledger.accounts.len(), 4);
}

#[test]
fn initialize_unknown_asset_is_invalid_input() {
    let mut p = Protocol::new(addr(PROGRAM), book(0, 0));
    let r = p.initialize(&addr(SETUP_AUTHORITY), &addr(99), &None);
    assert_eq!(r.unwrap_err(), ReceiptErrorCode::InvalidInput);
    assert_eq!(p.records.len(), 0);
}

#[test]
fn initialize_with_metadata_attaches_it_and_prices_it() {
    let mut p = Protocol::new(addr(PROGRAM), book(0, 0));
    let args = TokenMetadataArgs {
        name: "Receipt USDC".to_string(),
        symbol: "rUSDC".to_string(),
        uri: "https://example.com/r.json".to_string(),
    };
    let out = p.initialize(&addr(SETUP_AUTHORITY), &addr(USDC), &Some(args)).unwrap();
    let rec = p.records[0].state;
    assert!(p.ledger.has_metadata(&rec.crypto_receipt_mint));
    assert_eq!(p.ledger.metadata[0].name, "Receipt USDC");
    assert_eq!(p.ledger.metadata[0].symbol, "rUSDC");
    assert_eq!(p.ledger.metadata[0].uri, "https://example.com/r.json");
    // (4 + 80 + 12 + 5 + 26) bytes at 3480 lamports per byte-year, for two years
    assert_eq!(out.metadata_lamports, 127 * 3480 * 2);
}

#[test]
fn deposit_moves_funds_and_mints_receipts() {
    let (mut p, rec, state) = set_up(150, 0);
    p.deposit(&request(USER_U, USER_U_USDC, USER_U_RECEIPT, &rec, &state, 100)).unwrap();
    assert_eq!(p.ledger.balance(&rec.token_mint_vault), Some(100));
    assert_eq!(p.ledger.balance(&addr(USER_U_RECEIPT)), Some(100));
    assert_eq!(p.ledger.balance(&addr(USER_U_USDC)), Some(50));
    assert_eq!(p.ledger.supply(&rec.crypto_receipt_mint), Some(100));
}

#[test]
fn deposit_without_funds_changes_nothing() {
    let (mut p, rec, state) = set_up(130, 0);
    p.deposit(&request(USER_U, USER_U_USDC, USER_U_RECEIPT, &rec, &state, 100)).unwrap();
    let r = p.deposit(&request(USER_U, USER_U_USDC, USER_U_RECEIPT, &rec, &state, 50));
    assert_eq!(r.unwrap_err(), ReceiptErrorCode::InsufficientFunds);
    assert_eq!(p.ledger.balance(&rec.token_mint_vault), Some(100));
    assert_eq!(p.ledger.supply(&rec.crypto_receipt_mint), Some(100));
    assert_eq!(p.ledger.balance(&addr(USER_U_USDC)), Some(30));
}

#[test]
fn deposits_by_two_users_serialise() {
    let (mut p, rec, state) = set_up(110, 10);
    assert_eq!(p.deposit(&request(USER_U, USER_U_USDC, USER_U_RECEIPT, &rec, &state, 100)), Ok(()));
    assert_eq!(p.ledger.balance(&rec.token_mint_vault), Some(100));
    let first = p.deposit(&request(USER_U, USER_U_USDC, USER_U_RECEIPT, &rec, &state, 10));
    let second = p.deposit(&request(USER_V, USER_V_USDC, USER_V_RECEIPT, &rec, &state, 10));
    assert_eq!(first, Ok(()));
    assert_eq!(second, Ok(()));
    assert_eq!(p.ledger.balance(&rec.token_mint_vault), Some(120));
    assert_eq!(p.ledger.supply(&rec.crypto_receipt_mint), Some(120));
    assert_eq!(p.ledger.balance(&addr(USER_U_RECEIPT)), Some(110));
    assert_eq!(p.ledger.balance(&addr(USER_V_RECEIPT)), Some(10));
    assert_eq!(p.ledger.balance(&addr(USER_U_USDC)), Some(0));
    assert_eq!(p.ledger.balance(&addr(USER_V_USDC)), Some(0));
}

#[test]
fn deposit_of_zero_is_invalid_input() {
    let (mut p, rec, state) = set_up(10, 0);
    let r = p.deposit(&request(USER_U, USER_U_USDC, USER_U_RECEIPT, &rec, &state, 0));
    assert_eq!(r.unwrap_err(), ReceiptErrorCode::InvalidInput);
}

#[test]
fn deposit_to_substituted_escrow_is_invalid_input() {
    let (mut p, rec, state) = set_up(10, 0);
    let mut req = request(USER_U, USER_U_USDC, USER_U_RECEIPT, &rec, &state, 5);
    req.token_mint_vault = addr(USER_V_USDC);
    let r = p.deposit(&req);
    assert_eq!(r.unwrap_err(), ReceiptErrorCode::InvalidInput);
    assert_eq!(p.ledger.balance(&addr(USER_U_USDC)), Some(10));
    assert_eq!(p.ledger.balance(&addr(USER_V_USDC)), Some(0));
}

#[test]
fn deposit_with_unknown_record_is_invalid_input() {
    let (mut p, rec, _) = set_up(10, 0);
    let r = p.deposit(&request(USER_U, USER_U_USDC, USER_U_RECEIPT, &rec, &addr(77), 5));
    assert_eq!(r.unwrap_err(), ReceiptErrorCode::InvalidInput);
}

#[test]
fn deposit_with_tampered_bump_is_authority_mismatch() {
    let (mut p, rec, state) = set_up(10, 0);
    p.records[0].state.bump = p.records[0].state.bump.wrapping_sub(1);
    let r = p.deposit(&request(USER_U, USER_U_USDC, USER_U_RECEIPT, &rec, &state, 5));
    assert_eq!(r.unwrap_err(), ReceiptErrorCode::AuthorityMismatch);
    assert_eq!(p.ledger.balance(&rec.token_mint_vault), Some(0));
}

#[test]
fn deposit_from_someone_elses_account_is_invalid_input() {
    let (mut p, rec, state) = set_up(0, 10);
    let r = p.deposit(&request(USER_U, USER_V_USDC, USER_U_RECEIPT, &rec, &state, 5));
    assert_eq!(r.unwrap_err(), ReceiptErrorCode::InvalidInput);
    assert_eq!(p.ledger.balance(&addr(USER_V_USDC)), Some(10));
    assert_eq!(p.ledger.balance(&rec.token_mint_vault), Some(0));
}

#[test]
fn stored_record_must_stand_at_its_derived_address() {
    let (mut p, rec, state) = set_up(0, 0);
    let mut q = Protocol::new(addr(PROGRAM), Ledger::new());
    let misplaced = RecordEntry { address: addr(77), state: rec };
    assert_eq!(q.add_record(misplaced), Err(ReceiptErrorCode::AuthorityMismatch));
    assert_eq!(q.add_record(RecordEntry { address: state, state: rec }), Ok(()));
    assert_eq!(q.add_record(RecordEntry { address: state, state: rec }), Err(ReceiptErrorCode::DuplicateSetup));
    assert_eq!(q.records.len(), 1);
    assert_eq!(p.add_record(RecordEntry { address: state, state: rec }), Err(ReceiptErrorCode::DuplicateSetup));
}

#[test]
fn metadata_is_updated_by_the_derived_authority() {
    let mut p = Protocol::new(addr(PROGRAM), book(0, 0));
    let args = TokenMetadataArgs { name: "R".to_string(), symbol: "R".to_string(), uri: String::new() };
    let out = p.initialize(&addr(SETUP_AUTHORITY), &addr(USDC), &Some(args)).unwrap();
    let rec = p.records[0].state;
    let (authority, _) = ReceiptState::find_vault_authority(&addr(PROGRAM), &out.state_address).unwrap();
    assert!(p.ledger.metadata[0].update_authority == authority);
    assert!(p.ledger.metadata[0].mint == rec.crypto_receipt_mint);
    let m = p.ledger.find_mint(&rec.crypto_receipt_mint).unwrap();
    let pointer = p.ledger.mints[m].metadata_pointer.unwrap();
    assert!(pointer.authority == authority);
    assert!(pointer.metadata_address == rec.crypto_receipt_mint);
}

#[test]
fn setup_without_metadata_has_no_pointer() {
    let (p, rec, _) = set_up(0, 0);
    let m = p.ledger.find_mint(&rec.crypto_receipt_mint).unwrap();
    assert!(p.ledger.mints[m].metadata_pointer.is_none());
}

#[test]
fn mint_failure_leaves_transfer_undone() {
    let (mut p, rec, state) = set_up(10, 0);
    // the receipt account cannot take any more: the mint step would fail
    let i = p.ledger.find_account(&addr(USER_U_RECEIPT)).unwrap();
    p.ledger.accounts[i].amount = u64::MAX;
    let r = p.deposit(&request(USER_U, USER_U_USDC, USER_U_RECEIPT, &rec, &state, 5));
    assert_eq!(r.unwrap_err(), ReceiptErrorCode::InvalidInput);
    assert_eq!(p.ledger.balance(&addr(USER_U_USDC)), Some(10));
    assert_eq!(p.ledger.balance(&rec.token_mint_vault), Some(0));
    assert_eq!(p.ledger.supply(&rec.crypto_receipt_mint), Some(0));
}
