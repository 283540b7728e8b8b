use soroban_token_contract::{check_nonnegative_amount, EventKind, Token, TokenError};

const PROTOCOL: u64 = 99;
const ADMIN: u64 = 1;
const ALICE: u64 = 2;
const BOB: u64 = 3;

#[test]
fn access_initialize_once() {
    let mut t = Token::new(PROTOCOL, 0);
    assert_eq!(t.initialize(ADMIN, 256, "T".to_string(), "T".to_string()), Err(TokenError::InvalidDecimal));
    t.initialize(ADMIN, 7, "Token".to_string(), "TKN".to_string()).unwrap();
    assert_eq!(t.decimals(), 7);
    assert_eq!(t.name(), "Token");
    assert_eq!(t.symbol(), "TKN");
    assert_eq!(t.initialize(ADMIN, 7, "T".to_string(), "T".to_string()), Err(TokenError::AlreadyInitialized));
}

#[test]
fn access_mint_and_transfer() {
    let mut t = Token::new(PROTOCOL, 0);
    assert_eq!(t.mint(ADMIN, ALICE, 5), Err(TokenError::NotInitialized));
    t.initialize(ADMIN, 7, "Token".to_string(), "TKN".to_string()).unwrap();
    assert_eq!(t.mint(ADMIN, ALICE, -5), Err(TokenError::NegativeAmount));
    assert_eq!(t.mint(BOB, ALICE, 5), Err(TokenError::Unauthorized));
    t.mint(ADMIN, ALICE, 100).unwrap();
    t.transfer(ALICE, BOB, 30).unwrap();
    assert_eq!(t.balance(ALICE), 70);
    assert_eq!(t.balance(BOB), 30);
    assert_eq!(t.transfer(ALICE, BOB, 71), Err(TokenError::InsufficientBalance));
    t.burn(BOB, 30).unwrap();
    assert_eq!(t.balance(BOB), 0);
    assert_eq!(t.mint(ADMIN, ALICE, i128::MAX), Err(TokenError::Overflow));
    assert_eq!(t.balance(ALICE), 70);
}

#[test]
fn access_freeze_and_admin_handover() {
    let mut t = Token::new(PROTOCOL, 0);
    t.initialize(ADMIN, 7, "Token".to_string(), "TKN".to_string()).unwrap();
    t.mint(ADMIN, ALICE, 10).unwrap();
    assert_eq!(t.freeze_account(BOB, ALICE), Err(TokenError::Unauthorized));
    t.freeze_account(ADMIN, ALICE).unwrap();
    assert_eq!(t.transfer(ALICE, BOB, 1), Err(TokenError::AccountFrozen));
    t.set_admin(ADMIN, BOB).unwrap();
    assert_eq!(t.unfreeze_account(ADMIN, ALICE), Err(TokenError::Unauthorized));
    t.unfreeze_account(BOB, ALICE).unwrap();
    assert_eq!(t.transfer(ALICE, BOB, 1), Ok(()));
    assert_eq!(t.events().last().unwrap().kind, EventKind::Transfer);
}

#[test]
fn access_negative_amounts() {
    assert_eq!(check_nonnegative_amount(-1), Err(TokenError::NegativeAmount));
    assert_eq!(check_nonnegative_amount(0), Ok(()));
}

#[test]
fn access_clock_moves_forward() {
    let mut t = Token::new(PROTOCOL, 5);
    assert_eq!(t.ledger_sequence(), 5);
    t.set_ledger_sequence(9);
    assert_eq!(t.ledger_sequence(), 9);
    assert_eq!(t.contract_account(), PROTOCOL);
}

#[test]
fn access_allowances() {
    let mut t = Token::new(PROTOCOL, 10);
    t.initialize(ADMIN, 7, "Token".to_string(), "TKN".to_string()).unwrap();
    t.mint(ADMIN, ALICE, 100).unwrap();
    assert_eq!(t.allowance(ALICE, BOB), 0);
    assert_eq!(t.approve(ALICE, BOB, 50, 9), Err(TokenError::InvalidExpiration));
    assert_eq!(t.approve(ALICE, BOB, -1, 20), Err(TokenError::NegativeAmount));
    t.approve(ALICE, BOB, 50, 20).unwrap();
    assert_eq!(t.allowance(ALICE, BOB), 50);
    assert_eq!(t.allowance(BOB, ALICE), 0);
    assert_eq!(t.transfer_from(BOB, ALICE, ADMIN, 51), Err(TokenError::InsufficientAllowance));
    t.transfer_from(BOB, ALICE, ADMIN, 30).unwrap();
    assert_eq!(t.allowance(ALICE, BOB), 20);
    assert_eq!(t.balance(ADMIN), 30);
    t.burn_from(BOB, ALICE, 5).unwrap();
    assert_eq!(t.allowance(ALICE, BOB), 15);
    assert_eq!(t.balance(ALICE), 65);
    t.set_ledger_sequence(21);
    assert_eq!(t.allowance(ALICE, BOB), 0);
    assert_eq!(t.burn_from(BOB, ALICE, 1), Err(TokenError::InsufficientAllowance));
    assert_eq!(t.events().last().unwrap().kind, EventKind::Burn);
}

#[test]
fn access_allowance_beyond_balance() {
    let mut t = Token::new(PROTOCOL, 0);
    t.initialize(ADMIN, 7, "Token".to_string(), "TKN".to_string()).unwrap();
    t.mint(ADMIN, ALICE, 10).unwrap();
    t.approve(ALICE, BOB, 100, 5).unwrap();
    assert_eq!(t.transfer_from(BOB, ALICE, BOB, 20), Err(TokenError::InsufficientBalance));
    assert_eq!(t.allowance(ALICE, BOB), 100);
    t.freeze_account(ADMIN, ALICE).unwrap();
    assert_eq!(t.transfer_from(BOB, ALICE, BOB, 1), Err(TokenError::AccountFrozen));
}
