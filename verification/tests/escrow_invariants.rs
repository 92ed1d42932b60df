use mentorminds::dispute_evidence::EscrowStatus;
use mentorminds::escrow_invariants::{
    check_amount_non_negativity, check_exclusive_distribution, check_fund_conservation,
    check_session_completion_bounds, check_state_transition_validity, check_timestamp_consistency,
    check_token_balance_consistency, Escrow, InvariantViolation,
};

fn or_panic(r: Result<(), InvariantViolation>) {
    if let Err(v) = r {
        panic!("{}", v.message());
    }
}

#[test]
fn test_invariant_1_token_balance() {
    let escrow = Escrow {
        mentor: 1,
        learner: 2,
        amount: 1000,
        token: 3,
        status: EscrowStatus::Active,
        sessions_completed: 0,
        total_sessions: 5,
        created_at: 0,
        released_at: None,
    };
    or_panic(check_amount_non_negativity(escrow.amount));
    or_panic(check_token_balance_consistency(&escrow, 1000));
    assert_eq!(
        check_token_balance_consistency(&escrow, 999),
        Err(InvariantViolation::ExceedsContractBalance { amount: 1000, balance: 999 })
    );
}

#[test]
fn test_invariant_2_valid_transition() {
    or_panic(check_state_transition_validity(&EscrowStatus::Active, &EscrowStatus::Released));
}

#[test]
#[should_panic(expected = "invalid state transition")]
fn test_invariant_2_invalid_transition() {
    or_panic(check_state_transition_validity(&EscrowStatus::Released, &EscrowStatus::Active));
}

#[test]
fn test_invariant_3_session_bounds() {
    or_panic(check_session_completion_bounds(3, 5));
}

#[test]
#[should_panic(expected = "sessions_completed")]
fn test_invariant_3_violation() {
    or_panic(check_session_completion_bounds(6, 5));
}

#[test]
fn test_invariant_4_fund_conservation() {
    or_panic(check_fund_conservation(20, 980, 1000));
}

#[test]
#[should_panic(expected = "distributed")]
fn test_invariant_4_violation() {
    or_panic(check_fund_conservation(20, 970, 1000));
}

#[test]
fn test_invariant_5_exclusive_distribution() {
    or_panic(check_exclusive_distribution(true, false, false));
}

#[test]
#[should_panic(expected = "recipients selected")]
fn test_invariant_5_violation() {
    or_panic(check_exclusive_distribution(true, true, false));
}

#[test]
fn test_invariant_6_non_negative() {
    or_panic(check_amount_non_negativity(1000));
}

#[test]
#[should_panic(expected = "negative")]
fn test_invariant_6_violation() {
    or_panic(check_amount_non_negativity(-100));
}

#[test]
fn test_invariant_7_timestamp() {
    or_panic(check_timestamp_consistency(100, 200));
}

#[test]
#[should_panic(expected = "created_at")]
fn test_invariant_7_violation() {
    or_panic(check_timestamp_consistency(200, 100));
}

#[test]
fn invariants_report_the_offending_values() {
    assert_eq!(
        check_session_completion_bounds(6, 5),
        Err(InvariantViolation::SessionsExceedTotal { sessions_completed: 6, total_sessions: 5 })
    );
    assert_eq!(
        check_fund_conservation(20, 970, 1000),
        Err(InvariantViolation::FundsNotConserved { distributed: 990, original: 1000 })
    );
    assert_eq!(
        check_exclusive_distribution(false, false, false),
        Err(InvariantViolation::RecipientCount { recipients: 0 })
    );
    assert_eq!(
        check_exclusive_distribution(true, true, true),
        Err(InvariantViolation::RecipientCount { recipients: 3 })
    );
    let all = [
        EscrowStatus::Active,
        EscrowStatus::Released,
        EscrowStatus::Disputed,
        EscrowStatus::Refunded,
        EscrowStatus::Resolved,
    ];
    let mut valid = 0;
    for from in all.iter() {
        for to in all.iter() {
            if check_state_transition_validity(from, to).is_ok() {
                valid += 1;
            }
        }
    }
    assert_eq!(valid, 4);
    assert!(check_state_transition_validity(&EscrowStatus::Disputed, &EscrowStatus::Active).is_ok());
}
