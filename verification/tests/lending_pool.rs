use mentorminds::lending_pool::{CallError, Error, LendingPool, LiquidationError, LIQUIDATION_SECONDS};
use mentorminds::reentrancy_guard::GuardError;

const ADMIN: u64 = 1;
const LENDER: u64 = 2;
const BORROWER: u64 = 3;
const USDC: u64 = 4;
const CREDIT_SCORE: u64 = 5;
const SESSION: u64 = 6;

fn setup() -> LendingPool {
    let mut p = LendingPool::new();
    p.initialize(ADMIN, USDC, CREDIT_SCORE).unwrap();
    p
}

#[test]
fn test_deposit() {
    let mut p = setup();
    let result = p.deposit(LENDER, 1000);
    assert!(result.is_ok());
    assert_eq!(result.unwrap(), 1000);
}

#[test]
fn test_borrow() {
    let mut p = setup();
    p.deposit(LENDER, 10000).unwrap();
    let result = p.borrow(BORROWER, 1000, SESSION, 0);
    assert!(result.is_ok());
}

#[test]
fn test_repay() {
    let mut p = setup();
    p.deposit(LENDER, 10000).unwrap();
    let guard = p.borrow(BORROWER, 1000, SESSION, 0).unwrap();
    p.end_call(guard);
    let result = p.repay(BORROWER, 1020);
    assert!(result.is_ok());
}

#[test]
fn test_insufficient_liquidity() {
    let mut p = setup();
    let result = p.borrow(BORROWER, 1000, SESSION, 0);
    assert_eq!(result, Err(CallError::Refused(Error::InsufficientLiquidity)));
}

#[test]
fn lending_loan_fee_is_two_percent() {
    let mut p = setup();
    p.deposit(LENDER, 10000).unwrap();
    let guard = p.borrow(BORROWER, 1000, SESSION, 50).unwrap();
    p.end_call(guard);
    let loan = p.get_loan(BORROWER).unwrap();
    assert_eq!(loan.fee, 20);
    assert_eq!(loan.due_at, 50 + LIQUIDATION_SECONDS);
    assert_eq!(p.repay(BORROWER, 1019), Err(CallError::Refused(Error::InvalidAmount)));
    let (guard, owed) = p.repay(BORROWER, 1020).unwrap();
    assert_eq!(owed, 1020);
    p.end_call(guard);
    assert_eq!(p.repay(BORROWER, 1020), Err(CallError::Refused(Error::LoanAlreadyRepaid)));
}

#[test]
fn lending_withdraw_undoes_deposit() {
    let mut p = setup();
    let lp = p.deposit(LENDER, 5000).unwrap();
    let back = p.withdraw(LENDER, lp).unwrap();
    assert_eq!(back, 5000);
    assert_eq!(p.withdraw(LENDER, 1), Err(Error::InsufficientBalance));
}

#[test]
fn lending_invalid_amounts_and_missing_loan() {
    let mut p = setup();
    assert_eq!(p.deposit(LENDER, 0), Err(Error::InvalidAmount));
    assert_eq!(p.borrow(BORROWER, -5, SESSION, 0), Err(CallError::Refused(Error::InvalidAmount)));
    assert_eq!(p.repay(BORROWER, 10), Err(CallError::Refused(Error::LoanNotFound)));
    assert_eq!(p.get_loan(BORROWER).map(|l| l.amount), Err(Error::LoanNotFound));
}

#[test]
fn lending_uninitialized() {
    let mut p = LendingPool::new();
    assert_eq!(p.deposit(LENDER, 10), Err(Error::NotInitialized));
    p.initialize(ADMIN, USDC, CREDIT_SCORE).unwrap();
    assert_eq!(p.initialize(ADMIN, USDC, CREDIT_SCORE), Err(Error::AlreadyInitialized));
}

#[test]
fn lending_liquidate_only_after_due() {
    let mut p = setup();
    p.deposit(LENDER, 10000).unwrap();
    let guard = p.borrow(BORROWER, 1000, SESSION, 0).unwrap();
    p.end_call(guard);
    assert_eq!(p.liquidate(BORROWER, LIQUIDATION_SECONDS), Err(LiquidationError::LoanNotYetDue));
    p.liquidate(BORROWER, LIQUIDATION_SECONDS + 1).unwrap();
    assert!(p.get_loan(BORROWER).unwrap().repaid);
    assert_eq!(
        p.liquidate(BORROWER, LIQUIDATION_SECONDS + 2),
        Err(LiquidationError::Refused(Error::LoanAlreadyRepaid))
    );
}

#[test]
fn lending_lock_held_until_payout_done() {
    let mut p = setup();
    p.deposit(LENDER, 10000).unwrap();
    let guard = p.borrow(BORROWER, 1000, SESSION, 0).unwrap();
    assert_eq!(
        p.borrow(LENDER, 500, SESSION, 0),
        Err(CallError::Reentrant(GuardError::ReentrantCall))
    );
    assert_eq!(p.total_liquidity, 9000);
    p.end_call(guard);
    let guard = p.borrow(LENDER, 500, SESSION, 0).unwrap();
    p.end_call(guard);
    assert_eq!(p.total_liquidity, 8500);
    let (guard, owed) = p.repay(BORROWER, 5000).unwrap();
    assert_eq!(owed, 1020);
    assert_eq!(p.repay(LENDER, 510), Err(CallError::Reentrant(GuardError::ReentrantCall)));
    p.end_call(guard);
    assert_eq!(p.total_liquidity, 9520);
    assert!(p.locks.is_empty());
}

#[test]
fn lending_refused_borrow_releases_lock() {
    let mut p = setup();
    assert_eq!(p.borrow(BORROWER, 1000, SESSION, 0), Err(CallError::Refused(Error::InsufficientLiquidity)));
    assert!(p.locks.is_empty());
    p.deposit(LENDER, 2000).unwrap();
    assert!(p.borrow(BORROWER, 1000, SESSION, 0).is_ok());
}
