use soroban_token_contract::{EventKind, Token, TokenError};

const PROTOCOL: u64 = 99;
const ADMIN: u64 = 1;
const SUPPLIER: u64 = 2;
const BORROWER: u64 = 3;
const LIQUIDATOR: u64 = 4;

fn market(collateral_factor: u32) -> Token {
    let mut t = Token::new(PROTOCOL, 0);
    t.initialize(ADMIN, 7, "Token".to_string(), "TKN".to_string()).unwrap();
    t.initialize_lending_pool(ADMIN, 500, 800, collateral_factor, 1000).unwrap();
    t.mint(ADMIN, SUPPLIER, 10_000).unwrap();
    t.mint(ADMIN, BORROWER, 10_000).unwrap();
    t.mint(ADMIN, LIQUIDATOR, 10_000).unwrap();
    t
}

#[test]
fn lending_borrow_scenario() {
    let mut t = market(7500);
    t.supply(SUPPLIER, 1000).unwrap();
    assert_eq!(t.borrow(BORROWER, 600, 900), Ok(()));
    assert_eq!(t.borrow(BORROWER, 100, 0), Err(TokenError::InsufficientCollateral));
    let ub = t.get_user_borrow_info(BORROWER).unwrap();
    assert_eq!(ub.amount, 600);
    assert_eq!(ub.collateral_deposited, 900);
    assert!((ub.amount + ub.accrued_interest) * 10000 <= ub.collateral_deposited * 7500);
    let pool = t.get_lending_pool_info().unwrap();
    assert_eq!(pool.total_supplied, 1000);
    assert_eq!(pool.total_borrowed, 600);
    assert_eq!(pool.utilization_rate, 6000);
    assert_eq!(t.balance(BORROWER), 10_000 - 900 + 600);
}

#[test]
fn lending_liquidation_scenario() {
    let mut t = market(15000);
    t.supply(SUPPLIER, 2000).unwrap();
    t.borrow(BORROWER, 1000, 700).unwrap();
    assert_eq!(t.get_user_health_factor(BORROWER), Ok(56));
    t.liquidate(LIQUIDATOR, BORROWER, 800).unwrap();
    // repay capped at half the debt, seizure = 500 + 500 * 500 / 10000
    assert_eq!(t.balance(LIQUIDATOR), 10_000 - 500 + 525);
    let ub = t.get_user_borrow_info(BORROWER).unwrap();
    assert_eq!(ub.amount, 500);
    assert_eq!(ub.collateral_deposited, 175);
    let last = *t.events().last().unwrap();
    assert_eq!(last.kind, EventKind::Liquidate);
    assert_eq!(last.amount, 500);
    assert_eq!(t.get_lending_pool_info().unwrap().total_borrowed, 500);
}

#[test]
fn lending_liquidation_refusals() {
    let mut t = market(7500);
    t.supply(SUPPLIER, 2000).unwrap();
    t.borrow(BORROWER, 600, 900).unwrap();
    // 900 * 8000 / (600 * 100) = 120
    assert_eq!(t.get_user_health_factor(BORROWER), Ok(120));
    assert_eq!(t.liquidate(LIQUIDATOR, BORROWER, 100), Err(TokenError::PositionHealthy));
    assert_eq!(t.liquidate(LIQUIDATOR, SUPPLIER, 100), Err(TokenError::NoBorrow));
    assert_eq!(t.liquidate(LIQUIDATOR, BORROWER, -1), Err(TokenError::NegativeAmount));
    assert_eq!(t.liquidate(LIQUIDATOR, BORROWER, 10_001), Err(TokenError::InsufficientBalance));
    // a heavy penalty makes the seizure exceed the collateral
    t.update_liquidation_params(ADMIN, 1000, 30000).unwrap();
    assert_eq!(t.liquidate(LIQUIDATOR, BORROWER, 300), Err(TokenError::InsufficientCollateralToSeize));
}

#[test]
fn lending_supply_and_withdraw() {
    let mut t = market(7500);
    assert_eq!(t.withdraw(SUPPLIER, 1), Err(TokenError::NoSupply));
    t.supply(SUPPLIER, 1000).unwrap();
    assert_eq!(t.withdraw(SUPPLIER, 1001), Err(TokenError::InsufficientSupply));
    t.borrow(BORROWER, 600, 900).unwrap();
    assert_eq!(t.withdraw(SUPPLIER, 500), Err(TokenError::InsufficientLiquidity));
    assert_eq!(t.withdraw(SUPPLIER, 400), Ok(400));
    assert_eq!(t.get_user_supply_info(SUPPLIER).unwrap().amount, 600);
    assert_eq!(t.get_lending_pool_info().unwrap().total_supplied, 600);
    assert_eq!(t.get_available_liquidity(), Ok(0));
}

#[test]
fn lending_withdraw_all_removes_record() {
    let mut t = market(7500);
    t.supply(SUPPLIER, 1000).unwrap();
    assert_eq!(t.withdraw(SUPPLIER, 1000), Ok(1000));
    assert!(t.get_user_supply_info(SUPPLIER).is_none());
    assert_eq!(t.balance(SUPPLIER), 10_000);
}

#[test]
fn lending_interest_accrues_one_year() {
    let mut t = Token::new(PROTOCOL, 0);
    t.initialize(ADMIN, 7, "Token".to_string(), "TKN".to_string()).unwrap();
    t.initialize_lending_pool(ADMIN, 500, 800, 7500, 1000).unwrap();
    t.mint(ADMIN, SUPPLIER, 1_000_000_000).unwrap();
    t.supply(SUPPLIER, 1_000_000_000).unwrap();
    t.set_ledger_sequence(6_307_200);
    // 1e9 * 500 * 6307200 / (10000 * 6307200)
    assert_eq!(t.get_pending_supply_interest(SUPPLIER), Ok(50_000_000));
    t.accrue_lending_interest_manual().unwrap();
    let pool = t.get_lending_pool_info().unwrap();
    assert_eq!(pool.total_supplied, 1_050_000_000);
    assert_eq!(pool.last_update_ledger, 6_307_200);
    // a second accrual at the same tick changes nothing
    t.accrue_lending_interest_manual().unwrap();
    assert_eq!(t.get_lending_pool_info().unwrap(), pool);
}

#[test]
fn lending_repay_clears_debt_and_returns_collateral() {
    let mut t = market(7500);
    t.supply(SUPPLIER, 1000).unwrap();
    t.borrow(BORROWER, 600, 900).unwrap();
    assert_eq!(t.repay(BORROWER, 100), Ok(100));
    assert_eq!(t.get_user_borrow_info(BORROWER).unwrap().amount, 500);
    assert_eq!(t.repay(BORROWER, 5000), Ok(500));
    assert!(t.get_user_borrow_info(BORROWER).is_none());
    assert_eq!(t.balance(BORROWER), 10_000);
    assert_eq!(t.repay(BORROWER, 1), Err(TokenError::NoBorrow));
}

#[test]
fn lending_collateral_moves() {
    let mut t = market(7500);
    t.supply(SUPPLIER, 1000).unwrap();
    assert_eq!(t.add_collateral(BORROWER, 10), Err(TokenError::NoBorrow));
    t.borrow(BORROWER, 600, 900).unwrap();
    t.add_collateral(BORROWER, 100).unwrap();
    assert_eq!(t.get_user_borrow_info(BORROWER).unwrap().collateral_deposited, 1000);
    // 600 needs 800
    assert_eq!(t.remove_collateral(BORROWER, 201), Err(TokenError::UnsafeCollateralRemoval));
    assert_eq!(t.remove_collateral(BORROWER, 200), Ok(()));
    assert_eq!(t.get_user_borrow_info(BORROWER).unwrap().collateral_deposited, 800);
}

#[test]
fn lending_frozen_accounts_cannot_move_value() {
    let mut t = market(7500);
    t.freeze_account(ADMIN, SUPPLIER).unwrap();
    assert_eq!(t.supply(SUPPLIER, 1), Err(TokenError::AccountFrozen));
    assert_eq!(t.borrow(SUPPLIER, 1, 1), Err(TokenError::AccountFrozen));
    t.unfreeze_account(ADMIN, SUPPLIER).unwrap();
    assert_eq!(t.supply(SUPPLIER, 1), Ok(()));
}

#[test]
fn lending_requires_a_market() {
    let mut t = Token::new(PROTOCOL, 0);
    t.initialize(ADMIN, 7, "Token".to_string(), "TKN".to_string()).unwrap();
    t.mint(ADMIN, SUPPLIER, 10).unwrap();
    assert_eq!(t.supply(SUPPLIER, 1), Err(TokenError::NotInitialized));
    assert_eq!(t.get_lending_pool_info(), Err(TokenError::NotInitialized));
    assert_eq!(t.get_user_health_factor(SUPPLIER), Ok(i128::MAX));
    t.initialize_lending_pool(ADMIN, 1, 1, 1, 1).unwrap();
    assert_eq!(t.initialize_lending_pool(ADMIN, 1, 1, 1, 1), Err(TokenError::AlreadyInitialized));
    assert_eq!(t.initialize_lending_pool(SUPPLIER, 1, 1, 1, 1), Err(TokenError::Unauthorized));
}

#[test]
fn lending_zero_collateral_factor_admits_no_debt() {
    let mut t = market(0);
    t.supply(SUPPLIER, 1000).unwrap();
    assert_eq!(t.borrow(BORROWER, 10, 100), Err(TokenError::InsufficientCollateral));
}

#[test]
fn lending_collateral_check_does_not_round() {
    let mut t = market(7500);
    t.supply(SUPPLIER, 1000).unwrap();
    // 1 * 10000 > 1 * 7500, although 10000 / 7500 rounds down to 1
    assert_eq!(t.borrow(BORROWER, 1, 1), Err(TokenError::InsufficientCollateral));
    t.borrow(BORROWER, 1, 2).unwrap();
    // (2 - 1) * 7500 < 1 * 10000
    assert_eq!(t.remove_collateral(BORROWER, 1), Err(TokenError::UnsafeCollateralRemoval));
    assert_eq!(t.remove_collateral(BORROWER, 3), Err(TokenError::UnsafeCollateralRemoval));
    let ub = t.get_user_borrow_info(BORROWER).unwrap();
    assert_eq!(ub.collateral_deposited, 2);
}

#[test]
fn lending_collateral_moves_accrue_the_pool() {
    let mut t = market(7500);
    t.supply(SUPPLIER, 1000).unwrap();
    t.borrow(BORROWER, 600, 900).unwrap();
    t.set_ledger_sequence(100);
    t.add_collateral(BORROWER, 10).unwrap();
    assert_eq!(t.get_lending_pool_info().unwrap().last_update_ledger, 100);
    t.set_ledger_sequence(200);
    t.remove_collateral(BORROWER, 10).unwrap();
    assert_eq!(t.get_lending_pool_info().unwrap().last_update_ledger, 200);
}

#[test]
fn lending_dynamic_rates() {
    let mut t = market(7500);
    t.supply(SUPPLIER, 1000).unwrap();
    t.borrow(BORROWER, 600, 900).unwrap();
    t.update_dynamic_rates(ADMIN).unwrap();
    let pool = t.get_lending_pool_info().unwrap();
    // 200 + 6000 * 500 / 10000
    assert_eq!(pool.borrow_rate, 500);
    // (500 * 6000 / 10000) * 9000 / 10000
    assert_eq!(pool.supply_rate, 270);
    t.borrow(BORROWER, 100, 100).unwrap();
    t.repay(BORROWER, 0).unwrap();
    t.supply(SUPPLIER, 0).unwrap();
    t.update_collateral_factor(ADMIN, 9000).unwrap();
    t.borrow(BORROWER, 200, 0).unwrap();
    assert_eq!(t.get_lending_pool_info().unwrap().utilization_rate, 9000);
    t.update_dynamic_rates(ADMIN).unwrap();
    // 200 + 400 + (9000 - 8000)
    assert_eq!(t.get_lending_pool_info().unwrap().borrow_rate, 1600);
    assert_eq!(t.get_protocol_risk_metrics(ADMIN), Ok((1000, 900, 9000, 75)));
}

#[test]
fn lending_reserves_and_emergency() {
    let mut t = market(7500);
    t.supply(SUPPLIER, 1000).unwrap();
    t.borrow(BORROWER, 600, 900).unwrap();
    // (1000 - 600) * 1000 / 10000
    assert_eq!(t.withdraw_reserves(ADMIN, 41), Err(TokenError::InsufficientReserves));
    assert_eq!(t.withdraw_reserves(ADMIN, 40), Ok(()));
    assert_eq!(t.balance(ADMIN), 40);
    assert_eq!(t.withdraw_reserves(SUPPLIER, 1), Err(TokenError::Unauthorized));
    assert_eq!(t.emergency_withdraw_lending_pool(ADMIN), Ok(1260));
    let pool = t.get_lending_pool_info().unwrap();
    assert_eq!((pool.total_supplied, pool.total_borrowed, pool.utilization_rate), (0, 0, 0));
}

#[test]
fn lending_batch_and_scan() {
    let mut t = market(15000);
    t.supply(SUPPLIER, 5000).unwrap();
    t.borrow(BORROWER, 1000, 700).unwrap();
    t.mint(ADMIN, 5, 1000).unwrap();
    t.borrow(5, 100, 1000).unwrap();
    let users = vec![SUPPLIER, BORROWER, 5];
    assert_eq!(t.find_liquidatable_positions(ADMIN, &users), Ok(vec![BORROWER]));
    assert_eq!(t.find_liquidatable_positions(SUPPLIER, &users), Err(TokenError::Unauthorized));
    let targets = vec![(5, 50), (BORROWER, 800), (SUPPLIER, 10)];
    t.batch_liquidate(LIQUIDATOR, &targets).unwrap();
    let last = *t.events().last().unwrap();
    assert_eq!(last.kind, EventKind::BatchLiquidate);
    assert_eq!(last.amount, 500);
    assert_eq!(t.get_user_borrow_info(5).unwrap().amount, 100);
    let many = vec![(BORROWER, 1); 11];
    assert_eq!(t.batch_liquidate(LIQUIDATOR, &many), Err(TokenError::TooManyTargets));
}

#[test]
fn lending_queries() {
    let mut t = market(7500);
    t.supply(SUPPLIER, 1000).unwrap();
    t.borrow(BORROWER, 600, 900).unwrap();
    assert_eq!(t.get_max_borrowable_amount(BORROWER, 2000), Ok(900));
    assert_eq!(t.get_max_borrowable_amount(BORROWER, 100), Ok(0));
    assert_eq!(t.get_user_position_summary(BORROWER), Ok((0, 600, 900, 120)));
    assert_eq!(t.get_pending_borrow_interest(BORROWER), Ok(0));
    assert_eq!(t.get_pending_supply_interest(BORROWER), Ok(0));
}
