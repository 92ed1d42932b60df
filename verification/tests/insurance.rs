use std::collections::HashMap;

use mentorminds::insurance::{Error, InsuranceContract, WITHDRAW_LOCK_SECS};

const ADMIN: u64 = 1;
const TOKEN: u64 = 2;
const PROVIDER: u64 = 3;
const LEARNER: u64 = 4;
const CONTRACT: u64 = 99;

/// The token balances that the host keeps beside the contract.
struct Ledger {
    balances: HashMap<u64, i128>,
}

impl Ledger {
    fn new() -> Self {
        let mut balances = HashMap::new();
        balances.insert(PROVIDER, 1_000_000);
        Ledger { balances }
    }

    fn transfer(&mut self, from: u64, to: u64, amount: i128) {
        *self.balances.entry(from).or_insert(0) -= amount;
        *self.balances.entry(to).or_insert(0) += amount;
    }

    fn balance(&self, who: u64) -> i128 {
        *self.balances.get(&who).unwrap_or(&0)
    }
}

fn setup() -> (InsuranceContract, Ledger) {
    let mut c = InsuranceContract::new();
    c.initialize(ADMIN, TOKEN).unwrap();
    (c, Ledger::new())
}

fn deposit(c: &mut InsuranceContract, ledger: &mut Ledger, provider: u64, amount: i128) {
    c.deposit(provider, amount, 0).unwrap();
    ledger.transfer(provider, CONTRACT, amount);
}

#[test]
fn lib_test_deposit() {
    let (mut c, mut ledger) = setup();
    deposit(&mut c, &mut ledger, PROVIDER, 500_000);
    assert_eq!(c.get_pool_balance(), 500_000);
    assert_eq!(c.get_provider_shares(PROVIDER), 500_000);
}

#[test]
fn test_withdraw_lock_enforced() {
    let (mut c, mut ledger) = setup();
    deposit(&mut c, &mut ledger, PROVIDER, 500_000);

    c.set_withdraw_lock(PROVIDER, 0).unwrap();

    assert_eq!(c.withdraw(PROVIDER, 100_000, 0), Err(Error::WithdrawLocked));

    c.withdraw(PROVIDER, 100_000, WITHDRAW_LOCK_SECS + 1).unwrap();
    assert_eq!(c.get_pool_balance(), 400_000);
    assert_eq!(c.get_provider_shares(PROVIDER), 400_000);
}

#[test]
fn test_claim_pays_learner() {
    let (mut c, mut ledger) = setup();
    deposit(&mut c, &mut ledger, PROVIDER, 500_000);

    let escrow_id = 7;
    c.claim(escrow_id, LEARNER, 200_000).unwrap();
    ledger.transfer(CONTRACT, LEARNER, 200_000);

    assert_eq!(c.get_pool_balance(), 300_000);
    assert_eq!(c.get_total_claims_paid(), 200_000);
    assert_eq!(ledger.balance(LEARNER), 200_000);
}

#[test]
fn test_claim_insufficient_pool() {
    let (mut c, mut ledger) = setup();
    deposit(&mut c, &mut ledger, PROVIDER, 100_000);
    assert_eq!(c.claim(8, LEARNER, 200_000), Err(Error::InsufficientPoolBalance));
}

#[test]
fn test_coverage_ratio() {
    let (mut c, mut ledger) = setup();
    deposit(&mut c, &mut ledger, PROVIDER, 500_000);
    c.set_active_escrow_value(1_000_000).unwrap();
    assert_eq!(c.get_coverage_ratio(), 5000);
    assert!(!c.is_coverage_low());
}

#[test]
fn test_coverage_low_alert() {
    let (mut c, mut ledger) = setup();
    deposit(&mut c, &mut ledger, PROVIDER, 40_000);
    c.set_active_escrow_value(1_000_000).unwrap();
    assert_eq!(c.get_coverage_ratio(), 400);
    assert!(c.is_coverage_low());
}

#[test]
fn test_zero_amount_rejected() {
    let (mut c, _) = setup();
    assert_eq!(c.deposit(PROVIDER, 0, 0), Err(Error::ZeroAmount));
}

#[test]
fn insurance_uninitialized_and_double_init() {
    let mut c = InsuranceContract::new();
    assert_eq!(c.deposit(PROVIDER, 10, 0), Err(Error::NotInitialized));
    c.initialize(ADMIN, TOKEN).unwrap();
    assert_eq!(c.initialize(ADMIN, TOKEN), Err(Error::AlreadyInitialized));
}

#[test]
fn insurance_withdraw_more_than_shares() {
    let (mut c, mut ledger) = setup();
    deposit(&mut c, &mut ledger, PROVIDER, 1_000);
    assert_eq!(c.withdraw(PROVIDER, 1_001, WITHDRAW_LOCK_SECS), Err(Error::InsufficientShares));
    assert_eq!(c.get_pool_balance(), 1_000);
}

#[test]
fn insurance_accrue_yield_credits_ten_bps() {
    let (mut c, mut ledger) = setup();
    deposit(&mut c, &mut ledger, PROVIDER, 1_000);
    c.accrue_yield(PROVIDER, 50_000).unwrap();
    // 50_000 * 10 / 10_000 = 50
    assert_eq!(c.get_provider_shares(PROVIDER), 1_050);
    assert_eq!(c.get_pool_balance(), 1_050);
}

#[test]
fn insurance_coverage_without_escrow_value() {
    let (c, _) = setup();
    assert_eq!(c.get_coverage_ratio(), 0);
}

#[test]
fn insurance_deposit_starts_seven_day_lock() {
    let mut c = InsuranceContract::new();
    c.initialize(ADMIN, TOKEN).unwrap();
    c.deposit(PROVIDER, 500_000, 100).unwrap();
    assert_eq!(c.withdraw(PROVIDER, 100_000, 100), Err(Error::WithdrawLocked));
    assert_eq!(c.withdraw(PROVIDER, 100_000, 100 + WITHDRAW_LOCK_SECS - 1), Err(Error::WithdrawLocked));
    assert_eq!(c.get_pool_balance(), 500_000);
    c.withdraw(PROVIDER, 100_000, 100 + WITHDRAW_LOCK_SECS).unwrap();
    assert_eq!(c.get_provider_shares(PROVIDER), 400_000);
}
