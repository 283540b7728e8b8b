use soroban_token_contract::{EventKind, Token, TokenError};

const PROTOCOL: u64 = 99;
const ADMIN: u64 = 1;
const ALICE: u64 = 2;
const BOB: u64 = 3;

fn token_with_admin_funds(funds: i128) -> Token {
    let mut t = Token::new(PROTOCOL, 0);
    t.initialize(ADMIN, 7, "Token".to_string(), "TKN".to_string()).unwrap();
    t.mint(ADMIN, ADMIN, funds).unwrap();
    t
}

#[test]
fn vesting_linear_scenario() {
    let mut t = token_with_admin_funds(1000);
    t.create_vesting(ADMIN, ALICE, 1000, 100, 0, 200).unwrap();
    assert_eq!(t.balance(ALICE), 1000);
    assert_eq!(t.balance(ADMIN), 0);
    assert!(t.is_account_frozen(ALICE));
    t.set_ledger_sequence(150);
    assert_eq!(t.get_claimable_vesting(ALICE), Ok(500));
    assert_eq!(t.claim_vesting(ALICE), Ok(500));
    assert_eq!(t.get_vesting_info(ALICE).unwrap().claimed_amount, 500);
    t.set_ledger_sequence(300);
    assert_eq!(t.get_claimable_vesting(ALICE), Ok(500));
    assert_eq!(t.claim_vesting(ALICE), Ok(500));
    assert!(t.get_vesting_info(ALICE).is_none());
    assert!(!t.is_account_frozen(ALICE));
}

#[test]
fn vesting_claimable_bounds_and_monotone() {
    let mut t = token_with_admin_funds(1000);
    t.create_vesting(ADMIN, ALICE, 999, 10, 0, 40).unwrap();
    let mut last = 0;
    for now in 0..60u32 {
        t.set_ledger_sequence(now);
        let c = t.get_claimable_vesting(ALICE).unwrap();
        assert!(0 <= c && c <= 999);
        assert!(c >= last);
        last = c;
    }
    assert_eq!(last, 999);
}

#[test]
fn vesting_truncates_toward_zero() {
    let mut t = token_with_admin_funds(1000);
    t.create_vesting(ADMIN, ALICE, 10, 0, 0, 3).unwrap();
    t.set_ledger_sequence(1);
    assert_eq!(t.get_claimable_vesting(ALICE), Ok(3));
    t.set_ledger_sequence(2);
    assert_eq!(t.get_claimable_vesting(ALICE), Ok(6));
}

#[test]
fn vesting_cliff_blocks_claims() {
    let mut t = token_with_admin_funds(1000);
    t.create_vesting(ADMIN, ALICE, 1000, 100, 150, 200).unwrap();
    t.set_ledger_sequence(149);
    assert_eq!(t.get_claimable_vesting(ALICE), Ok(0));
    assert_eq!(t.claim_vesting(ALICE), Err(TokenError::NothingToClaim));
    t.set_ledger_sequence(150);
    assert_eq!(t.get_claimable_vesting(ALICE), Ok(500));
}

#[test]
fn vesting_rejects_bad_schedules() {
    let mut t = token_with_admin_funds(1000);
    assert_eq!(t.create_vesting(ADMIN, ALICE, 10, 100, 0, 100), Err(TokenError::InvalidSchedule));
    assert_eq!(t.create_vesting(ADMIN, ALICE, 10, 100, 50, 200), Err(TokenError::InvalidSchedule));
    assert_eq!(t.create_vesting(ADMIN, ALICE, -1, 100, 0, 200), Err(TokenError::NegativeAmount));
    assert_eq!(t.create_vesting(ADMIN, ALICE, 1001, 100, 0, 200), Err(TokenError::InsufficientBalance));
    assert_eq!(t.create_vesting(BOB, ALICE, 10, 100, 0, 200), Err(TokenError::Unauthorized));
    assert!(t.get_vesting_info(ALICE).is_none());
    assert_eq!(t.balance(ADMIN), 1000);
}

#[test]
fn vesting_needs_an_administrator() {
    let mut t = Token::new(PROTOCOL, 0);
    assert_eq!(t.create_vesting(ADMIN, ALICE, 10, 100, 0, 200), Err(TokenError::NotInitialized));
}

#[test]
fn vesting_revoke_returns_remainder() {
    let mut t = token_with_admin_funds(1000);
    t.create_vesting(ADMIN, ALICE, 1000, 0, 0, 100).unwrap();
    t.set_ledger_sequence(25);
    assert_eq!(t.claim_vesting(ALICE), Ok(250));
    t.revoke_vesting(ADMIN, ALICE).unwrap();
    assert_eq!(t.balance(ADMIN), 750);
    assert_eq!(t.balance(ALICE), 250);
    assert!(!t.is_account_frozen(ALICE));
    assert_eq!(t.revoke_vesting(ADMIN, ALICE), Err(TokenError::NoVestingSchedule));
    assert_eq!(t.events().last().unwrap().kind, EventKind::RevokeVesting);
}

#[test]
fn vesting_overflowing_product_is_refused() {
    let mut t = token_with_admin_funds(i128::MAX);
    t.create_vesting(ADMIN, ALICE, i128::MAX, 0, 0, 100).unwrap();
    t.set_ledger_sequence(50);
    assert_eq!(t.get_claimable_vesting(ALICE), Err(TokenError::Overflow));
    t.set_ledger_sequence(100);
    assert_eq!(t.get_claimable_vesting(ALICE), Ok(i128::MAX));
}

#[test]
fn vesting_frozen_beneficiary_cannot_transfer() {
    let mut t = token_with_admin_funds(1000);
    t.create_vesting(ADMIN, ALICE, 1000, 0, 0, 100).unwrap();
    assert_eq!(t.transfer(ALICE, BOB, 1), Err(TokenError::AccountFrozen));
    assert_eq!(t.burn(ALICE, 1), Err(TokenError::AccountFrozen));
}
