use soroban_token_contract::{EventKind, Token, TokenError};

const PROTOCOL: u64 = 99;
const ADMIN: u64 = 1;
const ALICE: u64 = 2;
const BOB: u64 = 3;

fn staking_token(rate: u32, min_duration: u32) -> Token {
    let mut t = Token::new(PROTOCOL, 0);
    t.initialize(ADMIN, 7, "Token".to_string(), "TKN".to_string()).unwrap();
    t.initialize_staking(ADMIN, PROTOCOL, PROTOCOL, rate, min_duration).unwrap();
    t.mint(ADMIN, PROTOCOL, 1_000_000).unwrap();
    t.mint(ADMIN, ALICE, 10_000).unwrap();
    t.mint(ADMIN, BOB, 10_000).unwrap();
    t
}

#[test]
fn staking_reward_scenario() {
    let mut t = staking_token(100, 0);
    t.stake(ALICE, 1000).unwrap();
    t.set_ledger_sequence(50);
    assert_eq!(t.get_pending_rewards(ALICE), Ok(500));
}

#[test]
fn staking_total_tracks_stakes() {
    let mut t = staking_token(100, 0);
    t.stake(ALICE, 1000).unwrap();
    t.stake(BOB, 300).unwrap();
    t.stake(ALICE, 200).unwrap();
    assert_eq!(t.get_pool_info().unwrap().total_staked, 1500);
    t.unstake(BOB, 300).unwrap();
    t.unstake(ALICE, 700).unwrap();
    let alice = t.get_stake_info(ALICE).unwrap().amount;
    assert_eq!(alice, 500);
    assert_eq!(t.get_pool_info().unwrap().total_staked, alice);
    assert_eq!(t.get_stake_info(BOB), Err(TokenError::NoStake));
}

#[test]
fn staking_topup_pays_pending_reward() {
    let mut t = staking_token(100, 0);
    t.stake(ALICE, 1000).unwrap();
    t.set_ledger_sequence(10);
    t.stake(ALICE, 1000).unwrap();
    // 10000 - 2000 staked + 1000 * 100 * 10 / 10000 paid
    assert_eq!(t.balance(ALICE), 8100);
    let kinds: Vec<EventKind> = t.events().iter().map(|e| e.kind).collect();
    assert_eq!(&kinds[kinds.len() - 2..], &[EventKind::ClaimReward, EventKind::Stake]);
    let info = t.get_stake_info(ALICE).unwrap();
    assert_eq!(info.amount, 2000);
    assert_eq!(info.since_ledger, 0);
    assert_eq!(info.last_claim_ledger, 10);
}

#[test]
fn staking_claim_rewards() {
    let mut t = staking_token(100, 0);
    t.stake(ALICE, 1000).unwrap();
    assert_eq!(t.claim_rewards(ALICE), Err(TokenError::NoRewards));
    t.set_ledger_sequence(7);
    assert_eq!(t.claim_rewards(ALICE), Ok(70));
    assert_eq!(t.balance(ALICE), 9070);
    assert_eq!(t.get_pending_rewards(ALICE), Ok(0));
    assert_eq!(t.claim_rewards(BOB), Err(TokenError::NoStake));
    assert_eq!(t.get_pending_rewards(BOB), Ok(0));
}

#[test]
fn staking_unstake_rules() {
    let mut t = staking_token(100, 20);
    t.stake(ALICE, 1000).unwrap();
    t.set_ledger_sequence(19);
    assert_eq!(t.unstake(ALICE, 100), Err(TokenError::MinStakeDurationNotMet));
    t.set_ledger_sequence(20);
    assert_eq!(t.unstake(ALICE, 1001), Err(TokenError::ExceedsStake));
    assert_eq!(t.unstake(ALICE, 0), Err(TokenError::NonPositiveAmount));
    assert_eq!(t.unstake(BOB, 1), Err(TokenError::NoStake));
    assert_eq!(t.unstake(ALICE, 1000), Ok(1000));
    // principal back plus 1000 * 100 * 20 / 10000
    assert_eq!(t.balance(ALICE), 10_200);
    assert_eq!(t.get_pool_info().unwrap().total_staked, 0);
}

#[test]
fn staking_stake_rules() {
    let mut t = Token::new(PROTOCOL, 0);
    assert_eq!(t.stake(ALICE, 1), Err(TokenError::NotInitialized));
    assert_eq!(t.get_pending_rewards(ALICE), Err(TokenError::NotInitialized));
    let mut t = staking_token(100, 0);
    assert_eq!(t.stake(ALICE, 0), Err(TokenError::NonPositiveAmount));
    assert_eq!(t.stake(ALICE, 10_001), Err(TokenError::InsufficientBalance));
    assert_eq!(t.initialize_staking(ADMIN, PROTOCOL, PROTOCOL, 1, 1), Err(TokenError::AlreadyInitialized));
}

#[test]
fn staking_admin_updates() {
    let mut t = staking_token(100, 0);
    assert_eq!(t.update_reward_rate(BOB, 5), Err(TokenError::Unauthorized));
    t.update_reward_rate(ADMIN, 5).unwrap();
    t.update_min_stake_duration(ADMIN, 9).unwrap();
    let pool = t.get_pool_info().unwrap();
    assert_eq!(pool.reward_rate, 5);
    assert_eq!(pool.min_stake_duration, 9);
}

#[test]
fn staking_rate_change_is_not_retroactive_after_claim() {
    let mut t = staking_token(100, 0);
    t.stake(ALICE, 1000).unwrap();
    t.set_ledger_sequence(10);
    assert_eq!(t.claim_rewards(ALICE), Ok(100));
    t.update_reward_rate(ADMIN, 200).unwrap();
    t.set_ledger_sequence(15);
    assert_eq!(t.get_pending_rewards(ALICE), Ok(100));
}

#[test]
fn staking_reward_overflow_is_refused() {
    let mut t = Token::new(PROTOCOL, 0);
    t.initialize(ADMIN, 7, "Token".to_string(), "TKN".to_string()).unwrap();
    t.initialize_staking(ADMIN, PROTOCOL, PROTOCOL, u32::MAX, 0).unwrap();
    t.mint(ADMIN, ALICE, i128::MAX / 2).unwrap();
    t.stake(ALICE, i128::MAX / 2).unwrap();
    t.set_ledger_sequence(1000);
    assert_eq!(t.get_pending_rewards(ALICE), Err(TokenError::Overflow));
}

#[test]
fn staking_emergency_withdraw() {
    let mut t = staking_token(100, 0);
    t.stake(ALICE, 1000).unwrap();
    assert_eq!(t.emergency_withdraw_rewards(BOB), Err(TokenError::Unauthorized));
    assert_eq!(t.emergency_withdraw_rewards(ADMIN), Ok(1_001_000));
    assert_eq!(t.balance(PROTOCOL), 0);
    assert_eq!(t.emergency_withdraw_rewards(ADMIN), Ok(0));
}

#[test]
fn staking_rate_change_prices_later_ticks_only() {
    let mut t = staking_token(100, 0);
    t.stake(ALICE, 1000).unwrap();
    t.set_ledger_sequence(50);
    assert_eq!(t.get_pending_rewards(ALICE), Ok(500));
    t.update_reward_rate(ADMIN, 200).unwrap();
    assert_eq!(t.get_pending_rewards(ALICE), Ok(500));
    t.set_ledger_sequence(60);
    // 500 + 1000 * 200 * 10 / 10000
    assert_eq!(t.get_pending_rewards(ALICE), Ok(700));
    assert_eq!(t.claim_rewards(ALICE), Ok(700));
    assert_eq!(t.get_pending_rewards(ALICE), Ok(0));
}
