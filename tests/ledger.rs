use receipt_money::address::Address;
use receipt_money::error::ReceiptErrorCode;
use receipt_money::ledger::Ledger;

fn addr(tag: u8) -> Address {
    Address::new([tag; 32])
}

fn two_accounts() -> Ledger {
    let mut l = Ledger::new();
    l.create_mint(&addr(1), 9, &addr(2), None, None).unwrap();
    l.create_account(&addr(3), &addr(1), &addr(4)).unwrap();
    l.create_account(&addr(5), &addr(1), &addr(6)).unwrap();
    l.mint_to(&addr(1), &addr(3), 40, &addr(2)).unwrap();
    l
}

#[test]
fn transfer_moves_exact_amount() {
    let mut l = two_accounts();
    l.transfer(&addr(3), &addr(5), 15, &addr(4)).unwrap();
    assert_eq!(l.balance(&addr(3)), Some(25));
    assert_eq!(l.balance(&addr(5)), Some(15));
    assert_eq!(l.supply(&addr(1)), Some(40));
}

#[test]
fn transfer_needs_owner_signature() {
    let mut l = two_accounts();
    assert_eq!(l.transfer(&addr(3), &addr(5), 15, &addr(6)), Err(ReceiptErrorCode::AuthorityMismatch));
    assert_eq!(l.balance(&addr(3)), Some(40));
}

#[test]
fn transfer_to_itself_is_invalid_input() {
    let mut l = two_accounts();
    assert_eq!(l.transfer(&addr(3), &addr(3), 1, &addr(4)), Err(ReceiptErrorCode::InvalidInput));
}

#[test]
fn transfer_beyond_balance_is_insufficient_funds() {
    let mut l = two_accounts();
    assert_eq!(l.transfer(&addr(3), &addr(5), 41, &addr(4)), Err(ReceiptErrorCode::InsufficientFunds));
    assert_eq!(l.transfer(&addr(3), &addr(5), 40, &addr(4)), Ok(()));
    assert_eq!(l.balance(&addr(3)), Some(0));
}

#[test]
fn mint_needs_mint_authority() {
    let mut l = two_accounts();
    assert_eq!(l.mint_to(&addr(1), &addr(5), 1, &addr(4)), Err(ReceiptErrorCode::AuthorityMismatch));
    assert_eq!(l.supply(&addr(1)), Some(40));
}

#[test]
fn mint_overflow_is_invalid_input() {
    let mut l = two_accounts();
    assert_eq!(l.mint_to(&addr(1), &addr(5), u64::MAX, &addr(2)), Err(ReceiptErrorCode::InvalidInput));
}

#[test]
fn addresses_are_unique_across_accounts_and_mints() {
    let mut l = two_accounts();
    assert_eq!(l.create_account(&addr(1), &addr(1), &addr(4)), Err(ReceiptErrorCode::DuplicateSetup));
    assert_eq!(l.create_mint(&addr(3), 0, &addr(2), None, None), Err(ReceiptErrorCode::DuplicateSetup));
    assert_eq!(l.create_account(&addr(8), &addr(9), &addr(4)), Err(ReceiptErrorCode::InvalidInput));
    assert!(l.is_fresh(&addr(8)));
    assert!(!l.is_fresh(&addr(1)));
}

#[test]
fn address_comparison_is_bytewise() {
    let a = addr(7);
    let mut bytes = [7u8; 32];
    assert!(a.same(&Address::new(bytes)));
    bytes[31] = 8;
    assert!(!a.same(&Address::new(bytes)));
    assert_eq!(a.to_vec(), vec![7u8; 32]);
}
