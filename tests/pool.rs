use dex::ledger::AccountId;
use dex::pool::{Dex, Error};

fn caller() -> AccountId {
    AccountId::from_bytes([0x01; 32])
}

fn caller2() -> AccountId {
    AccountId::from_bytes([0x02; 32])
}

fn seeded_pool() -> Dex {
    let mut pool = Dex::new(10);
    pool.faucet(&caller(), 1000, 1000);
    pool.faucet(&caller2(), 1000, 1000);
    assert_eq!(pool.provide(&caller(), 100, 100), Ok(100_000_000));
    pool
}

#[test]
fn new_clamps_fee() {
    let pool = Dex::new(2000);
    assert_eq!(pool.getPoolDetails(), (0, 0, 0, 0));
    assert_eq!(Dex::new(999).getPoolDetails().3, 999);
    assert_eq!(Dex::new(1000).getPoolDetails().3, 0);
}

#[test]
fn genesis_provide_mints_fixed_shares() {
    let mut pool = Dex::new(0);
    pool.faucet(&caller(), 1000, 1000);
    assert_eq!(pool.provide(&caller(), 100, 100), Ok(100_000_000));
    assert_eq!(pool.getPoolDetails(), (100, 100, 100_000_000, 0));
    assert_eq!(pool.getMyHoldings(&caller()), (900, 900, 100_000_000));
}

#[test]
fn genesis_share_ignores_amounts() {
    let mut pool = Dex::new(0);
    pool.faucet(&caller(), 1000, 1000);
    assert_eq!(pool.provide(&caller(), 7, 900), Ok(100_000_000));
    assert_eq!(pool.getPoolDetails(), (7, 900, 100_000_000, 0));
}

#[test]
fn second_provide_mints_pro_rata() {
    let mut pool = seeded_pool();
    assert_eq!(pool.provide(&caller2(), 50, 50), Ok(50_000_000));
    assert_eq!(pool.getPoolDetails(), (150, 150, 150_000_000, 10));
    assert_eq!(pool.getMyHoldings(&caller2()), (950, 950, 50_000_000));
}

#[test]
fn provide_off_ratio_fails() {
    let mut pool = seeded_pool();
    assert_eq!(pool.provide(&caller(), 50, 60), Err(Error::NonEquivalentValue));
    assert_eq!(pool.getPoolDetails(), (100, 100, 100_000_000, 10));
    assert_eq!(pool.getMyHoldings(&caller()), (900, 900, 100_000_000));
}

#[test]
fn withdraw_all_empties_pool() {
    let mut pool = seeded_pool();
    assert_eq!(pool.provide(&caller2(), 50, 50), Ok(50_000_000));
    let _ = pool.getWithdrawEstimate(0);
    assert_eq!(pool.withdraw(&caller(), 100_000_000), Ok((100, 100)));
    assert_eq!(pool.withdraw(&caller2(), 50_000_000), Ok((50, 50)));
    assert_eq!(pool.getPoolDetails(), (0, 0, 0, 10));
    assert_eq!(pool.getWithdrawEstimate(1), Err(Error::ZeroLiquidity));
}

#[test]
fn withdraw_whole_supply_at_once() {
    let mut pool = Dex::new(0);
    pool.faucet(&caller(), 1000, 1000);
    assert_eq!(pool.provide(&caller(), 100, 100), Ok(100_000_000));
    assert_eq!(pool.provide(&caller(), 50, 50), Ok(50_000_000));
    assert_eq!(pool.withdraw(&caller(), 150_000_000), Ok((150, 150)));
    assert_eq!(pool.getPoolDetails(), (0, 0, 0, 0));
    assert_eq!(pool.getWithdrawEstimate(150_000_000), Err(Error::ZeroLiquidity));
    assert_eq!(pool.getMyHoldings(&caller()), (1000, 1000, 0));
}

#[test]
fn provide_zero_amount_fails() {
    let mut pool = seeded_pool();
    assert_eq!(pool.provide(&caller(), 0, 10), Err(Error::ZeroAmount));
    assert_eq!(pool.provide(&caller(), 10, 0), Err(Error::ZeroAmount));
    assert_eq!(pool.withdraw(&caller(), 0), Err(Error::ZeroAmount));
}

#[test]
fn provide_beyond_balance_fails() {
    let mut pool = seeded_pool();
    assert_eq!(pool.provide(&caller(), 901, 901), Err(Error::InsufficientAmount));
    assert_eq!(pool.provide(&caller(), 900, 901), Err(Error::InsufficientAmount));
    let stranger = AccountId::from_bytes([0x09; 32]);
    assert_eq!(pool.withdraw(&stranger, 1), Err(Error::InsufficientAmount));
    assert_eq!(pool.withdraw(&caller(), 100_000_001), Err(Error::InsufficientAmount));
}

#[test]
fn provide_too_small_fails() {
    let mut pool = Dex::new(0);
    pool.faucet(&caller(), 300_000_000, 300_000_000);
    assert_eq!(pool.provide(&caller(), 200_000_000, 200_000_000), Ok(100_000_000));
    assert_eq!(pool.provide(&caller(), 1, 1), Err(Error::ThresholdNotReached));
    assert_eq!(pool.getPoolDetails(), (200_000_000, 200_000_000, 100_000_000, 0));
}

#[test]
fn estimates_on_empty_pool_fail() {
    let pool = Dex::new(0);
    assert_eq!(pool.getEquivalentToken1Estimate(5), Err(Error::ZeroLiquidity));
    assert_eq!(pool.getEquivalentToken2Estimate(5), Err(Error::ZeroLiquidity));
    assert_eq!(pool.getWithdrawEstimate(5), Err(Error::ZeroLiquidity));
}

#[test]
fn estimates_follow_ratio() {
    let mut pool = Dex::new(0);
    pool.faucet(&caller(), 1000, 1000);
    assert_eq!(pool.provide(&caller(), 200, 300), Ok(100_000_000));
    assert_eq!(pool.getEquivalentToken1Estimate(10), Ok(6));
    assert_eq!(pool.getEquivalentToken2Estimate(10), Ok(15));
    assert_eq!(pool.getWithdrawEstimate(50_000_000), Ok((100, 150)));
    assert_eq!(pool.getWithdrawEstimate(33_333_333), Ok((66, 99)));
    assert_eq!(pool.getWithdrawEstimate(100_000_001), Err(Error::InvalidShare));
}

#[test]
fn estimates_repeat_alike() {
    let pool = seeded_pool();
    let first = (
        pool.getEquivalentToken1Estimate(37),
        pool.getEquivalentToken2Estimate(41),
        pool.getWithdrawEstimate(12_345_678),
    );
    let second = (
        pool.getEquivalentToken1Estimate(37),
        pool.getEquivalentToken2Estimate(41),
        pool.getWithdrawEstimate(12_345_678),
    );
    assert_eq!(first, second);
    assert_eq!(pool.getPoolDetails(), (100, 100, 100_000_000, 10));
}

#[test]
fn withdraw_then_redeposit_gains_nothing() {
    let mut pool = Dex::new(0);
    pool.faucet(&caller(), 1000, 1000);
    assert_eq!(pool.provide(&caller(), 300, 300), Ok(100_000_000));
    assert_eq!(pool.withdraw(&caller(), 33_333_334), Ok((100, 100)));
    assert_eq!(pool.provide(&caller(), 100, 100), Ok(33_333_333));
    assert_eq!(pool.getMyHoldings(&caller()).2, 99_999_999);
}

#[test]
fn accounts_are_independent() {
    let mut pool = seeded_pool();
    pool.faucet(&caller2(), 5, 7);
    assert_eq!(pool.getMyHoldings(&caller2()), (1005, 1007, 0));
    assert_eq!(pool.getMyHoldings(&caller()), (900, 900, 100_000_000));
}
