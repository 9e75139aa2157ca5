use loyalty_program::errors::Error;
use loyalty_program::history::TransactionKind;
use loyalty_program::service::LoyaltyProgram;

const ADMIN: u64 = 1;
const USER: u64 = 2;
const USER2: u64 = 3;

fn initialized_program() -> LoyaltyProgram {
    let mut p = LoyaltyProgram::new();
    p.initialize(ADMIN, "Loyalty Points".to_string(), "LP".to_string(), 10, 50)
        .unwrap();
    p
}

#[test]
fn test_initialize() {
    let p = initialized_program();
    let (name, symbol, total_supply) = p.get_token_info();
    assert_eq!(name, "Loyalty Points".to_string());
    assert_eq!(symbol, "LP".to_string());
    assert_eq!(total_supply, 0);
}

#[test]
fn test_earn_and_redeem_points() {
    let mut p = initialized_program();

    let points_earned = p.earn_points(USER, 100, 1).unwrap();
    assert_eq!(points_earned, 10);

    let balance = p.balance(USER);
    assert_eq!(balance, 10);

    p.redeem_points(USER, 5, 2).unwrap();
    let new_balance = p.balance(USER);
    assert_eq!(new_balance, 5);
}

#[test]
fn test_transfer() {
    let mut p = initialized_program();

    p.earn_points(USER, 100, 1).unwrap();
    assert_eq!(p.balance(USER), 10);

    p.transfer(USER, USER2, 3, 2).unwrap();

    assert_eq!(p.balance(USER), 7);
    assert_eq!(p.balance(USER2), 3);
}

#[test]
fn test_token_info_defaults_before_initialize() {
    let p = LoyaltyProgram::new();
    let (name, symbol, total_supply) = p.get_token_info();
    assert_eq!(name, "Loyalty Points".to_string());
    assert_eq!(symbol, "LP".to_string());
    assert_eq!(total_supply, 0);
}

#[test]
fn test_initialize_twice_fails() {
    let mut p = initialized_program();
    let r = p.initialize(ADMIN, "Other".to_string(), "O".to_string(), 5, 0);
    assert_eq!(r, Err(Error::AlreadyInitialized));
    let (name, symbol, total_supply) = p.get_token_info();
    assert_eq!(name, "Loyalty Points".to_string());
    assert_eq!(symbol, "LP".to_string());
    assert_eq!(total_supply, 0);
}

#[test]
fn test_operations_require_initialization() {
    let mut p = LoyaltyProgram::new();
    assert_eq!(p.earn_points(USER, 100, 1), Err(Error::NotInitialized));
    assert_eq!(p.redeem_points(USER, 1, 1), Err(Error::NotInitialized));
    assert_eq!(p.transfer(USER, USER2, 1, 1), Err(Error::NotInitialized));
    assert_eq!(p.mint(ADMIN, USER, 1, 1), Err(Error::NotInitialized));
    assert_eq!(p.burn(ADMIN, USER, 1, 1), Err(Error::NotInitialized));
    assert_eq!(p.update_reward_rates(ADMIN, 5, 0), Err(Error::NotInitialized));
}

#[test]
fn test_earn_below_minimum_fails() {
    let mut p = initialized_program();
    let r = p.earn_points(USER, 30, 1);
    assert_eq!(r, Err(Error::BelowMinimum));
    assert_eq!(p.balance(USER), 0);
    assert_eq!(p.get_token_info().2, 0);
    let stats = p.get_user_stats(USER);
    assert_eq!(stats.transaction_count, 0);
    assert_eq!(p.get_transaction_history(USER).len(), 0);
}

#[test]
fn test_earn_rejects_non_positive_amount() {
    let mut p = initialized_program();
    assert_eq!(p.earn_points(USER, 0, 1), Err(Error::InvalidAmount));
    assert_eq!(p.earn_points(USER, -5, 1), Err(Error::InvalidAmount));
    assert_eq!(p.balance(USER), 0);
}

#[test]
fn test_earn_no_points_earned() {
    let mut p = LoyaltyProgram::new();
    p.initialize(ADMIN, "Loyalty Points".to_string(), "LP".to_string(), 100, 50)
        .unwrap();
    // 55 clears the minimum of 50 but 55 / 100 rounds down to zero points.
    assert_eq!(p.earn_points(USER, 55, 1), Err(Error::NoPointsEarned));
    assert_eq!(p.balance(USER), 0);
}

#[test]
fn test_redeem_errors() {
    let mut p = initialized_program();
    p.earn_points(USER, 100, 1).unwrap();
    assert_eq!(p.redeem_points(USER, 0, 2), Err(Error::InvalidAmount));
    assert_eq!(p.redeem_points(USER, -1, 2), Err(Error::InvalidAmount));
    assert_eq!(p.redeem_points(USER, 11, 2), Err(Error::InsufficientBalance));
    assert_eq!(p.balance(USER), 10);
}

#[test]
fn test_transfer_errors() {
    let mut p = initialized_program();
    p.earn_points(USER, 100, 1).unwrap();
    assert_eq!(p.transfer(USER, USER2, 0, 2), Err(Error::InvalidAmount));
    assert_eq!(p.transfer(USER, USER, 3, 2), Err(Error::SelfTransfer));
    assert_eq!(p.transfer(USER, USER2, 11, 2), Err(Error::InsufficientBalance));
    assert_eq!(p.balance(USER), 10);
    assert_eq!(p.balance(USER2), 0);
}

#[test]
fn test_transfer_conserves_total_supply() {
    let mut p = initialized_program();
    p.earn_points(USER, 100, 1).unwrap();
    let supply_before = p.get_token_info().2;
    p.transfer(USER, USER2, 3, 2).unwrap();
    assert_eq!(p.get_token_info().2, supply_before);
    assert_eq!(p.balance(USER) + p.balance(USER2), supply_before);
}

#[test]
fn test_mint_by_non_admin_unauthorized() {
    let mut p = initialized_program();
    let r = p.mint(USER, USER, 100, 1);
    assert_eq!(r, Err(Error::Unauthorized));
    assert_eq!(p.balance(USER), 0);
    assert_eq!(p.get_token_info().2, 0);
    assert_eq!(p.get_transaction_history(USER).len(), 0);
}

#[test]
fn test_mint_and_burn_by_admin() {
    let mut p = initialized_program();
    p.mint(ADMIN, USER, 40, 1).unwrap();
    assert_eq!(p.balance(USER), 40);
    assert_eq!(p.get_token_info().2, 40);

    assert_eq!(p.mint(ADMIN, USER, 0, 2), Err(Error::InvalidAmount));
    assert_eq!(p.burn(USER, USER, 1, 2), Err(Error::Unauthorized));
    assert_eq!(p.burn(ADMIN, USER, 41, 2), Err(Error::InsufficientBalance));

    p.burn(ADMIN, USER, 15, 3).unwrap();
    assert_eq!(p.balance(USER), 25);
    assert_eq!(p.get_token_info().2, 25);
}

#[test]
fn test_mint_overflow() {
    let mut p = initialized_program();
    p.mint(ADMIN, USER, i128::MAX, 1).unwrap();
    assert_eq!(p.mint(ADMIN, USER2, 1, 2), Err(Error::Overflow));
    assert_eq!(p.balance(USER2), 0);
    assert_eq!(p.get_token_info().2, i128::MAX);
}

#[test]
fn test_stats_track_earn_and_redeem_only() {
    let mut p = initialized_program();
    p.earn_points(USER, 100, 7).unwrap();
    let s = p.get_user_stats(USER);
    assert_eq!(s.total_earned, 10);
    assert_eq!(s.total_redeemed, 0);
    assert_eq!(s.transaction_count, 1);
    assert_eq!(s.last_activity, 7);

    p.redeem_points(USER, 4, 9).unwrap();
    let s = p.get_user_stats(USER);
    assert_eq!(s.total_earned, 10);
    assert_eq!(s.total_redeemed, 4);
    assert_eq!(s.transaction_count, 2);
    assert_eq!(s.last_activity, 9);

    // Transfers, mints and burns leave the statistics alone.
    p.transfer(USER, USER2, 1, 11).unwrap();
    p.mint(ADMIN, USER, 5, 12).unwrap();
    p.burn(ADMIN, USER, 1, 13).unwrap();
    let s = p.get_user_stats(USER);
    assert_eq!(s.transaction_count, 2);
    assert_eq!(s.last_activity, 9);
    assert_eq!(p.get_user_stats(USER2).transaction_count, 0);
}

#[test]
fn test_history_records_operations() {
    let mut p = initialized_program();
    p.earn_points(USER, 100, 1).unwrap();
    p.redeem_points(USER, 4, 2).unwrap();
    p.transfer(USER, USER2, 2, 3).unwrap();
    p.mint(ADMIN, USER, 5, 4).unwrap();
    p.burn(ADMIN, USER, 1, 5).unwrap();

    let h = p.get_transaction_history(USER);
    assert_eq!(h.len(), 5);
    assert_eq!((h[0].amount, h[0].kind, h[0].timestamp), (10, TransactionKind::Earn, 1));
    assert_eq!((h[1].amount, h[1].kind, h[1].timestamp), (-4, TransactionKind::Redeem, 2));
    assert_eq!((h[2].amount, h[2].kind, h[2].timestamp), (-2, TransactionKind::TransferOut, 3));
    assert_eq!((h[3].amount, h[3].kind, h[3].timestamp), (5, TransactionKind::Mint, 4));
    assert_eq!((h[4].amount, h[4].kind, h[4].timestamp), (-1, TransactionKind::Burn, 5));

    let h2 = p.get_transaction_history(USER2);
    assert_eq!(h2.len(), 1);
    assert_eq!((h2[0].amount, h2[0].kind), (2, TransactionKind::TransferIn));
}

#[test]
fn test_history_capped_at_ten_with_fifo_eviction() {
    let mut p = initialized_program();
    // Eleven mints with distinct amounts: the first record must be evicted.
    for i in 1..=11i128 {
        p.mint(ADMIN, USER, i, i as u64).unwrap();
    }
    let h = p.get_transaction_history(USER);
    assert_eq!(h.len(), 10);
    // The record with amount 1 is gone; amounts 2..=11 remain, oldest first.
    for (j, tx) in h.iter().enumerate() {
        assert_eq!(tx.amount, (j as i128) + 2);
        assert_eq!(tx.kind, TransactionKind::Mint);
    }
}

#[test]
fn test_update_reward_rates() {
    let mut p = initialized_program();
    assert_eq!(p.update_reward_rates(USER, 5, 0), Err(Error::Unauthorized));
    p.update_reward_rates(ADMIN, 5, 0).unwrap();
    // With a rate of 5 and no minimum, a purchase of 30 now earns 6 points.
    assert_eq!(p.earn_points(USER, 30, 1), Ok(6));
    assert_eq!(p.balance(USER), 6);
}

#[test]
fn test_reads_do_not_mutate() {
    let mut p = initialized_program();
    p.earn_points(USER, 100, 1).unwrap();
    for _ in 0..3 {
        assert_eq!(p.balance(USER), 10);
        assert_eq!(p.get_user_stats(USER).total_earned, 10);
        assert_eq!(p.get_transaction_history(USER).len(), 1);
        assert_eq!(p.get_token_info().2, 10);
    }
}
