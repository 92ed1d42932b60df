use std::collections::HashMap;

use mentorminds::reentrancy_guard::{GuardError, ReentrancyGuard};
use mentorminds::state_machine::{ISAStatus, LoanStatus, StateMachine, SubscriptionStatus};

#[test]
fn shared_subscription_transitions() {
    assert!(SubscriptionStatus::is_valid_transition(&SubscriptionStatus::Trial, &SubscriptionStatus::Active));
    assert!(SubscriptionStatus::is_valid_transition(&SubscriptionStatus::GracePeriod, &SubscriptionStatus::Expired));
    assert!(!SubscriptionStatus::is_valid_transition(&SubscriptionStatus::Expired, &SubscriptionStatus::Active));
    assert!(!SubscriptionStatus::is_valid_transition(&SubscriptionStatus::Active, &SubscriptionStatus::Active));
}

#[test]
fn shared_loan_transitions() {
    assert!(LoanStatus::is_valid_transition(&LoanStatus::Pending, &LoanStatus::Active));
    assert!(LoanStatus::is_valid_transition(&LoanStatus::Active, &LoanStatus::Repaid));
    assert!(!LoanStatus::is_valid_transition(&LoanStatus::Repaid, &LoanStatus::Active));
    assert!(!LoanStatus::is_valid_transition(&LoanStatus::Defaulted, &LoanStatus::Pending));
}

#[test]
fn shared_isa_terminal_states() {
    let all = [
        ISAStatus::Pending,
        ISAStatus::StudyPeriod,
        ISAStatus::GracePeriod,
        ISAStatus::Repayment,
        ISAStatus::Completed,
        ISAStatus::Defaulted,
    ];
    for from in [ISAStatus::Completed, ISAStatus::Defaulted] {
        for to in all.iter() {
            assert!(!ISAStatus::is_valid_transition(&from, to));
        }
    }
}

#[test]
fn shared_reentrancy_guard() {
    let mut locks: HashMap<u64, bool> = HashMap::new();
    let guard = ReentrancyGuard::enter(&mut locks, 7).ok().unwrap();
    assert_eq!(ReentrancyGuard::enter(&mut locks, 7).err(), Some(GuardError::ReentrantCall));
    assert!(ReentrancyGuard::enter(&mut locks, 8).is_ok());
    guard.release(&mut locks);
    assert!(!locks.contains_key(&7));
    assert!(ReentrancyGuard::enter(&mut locks, 7).is_ok());
}
