//! Runtime checks of the escrow contract's invariants: each check accepts a
//! state that keeps its invariant and names the violation otherwise.
use vstd::prelude::*;

use crate::dispute_evidence::EscrowStatus;
use crate::ids::AccountId;

verus! {

/// The escrow record as the escrow contract keeps it.
#[derive(Copy, Clone, Debug, PartialEq, Eq, Structural)]
pub struct Escrow {
    pub mentor: AccountId,
    pub learner: AccountId,
    pub amount: i128,
    pub token: AccountId,
    pub status: EscrowStatus,
    pub sessions_completed: u32,
    pub total_sessions: u32,
    pub created_at: u64,
    pub released_at: Option<u64>,
}

/// Which invariant a state breaks, with the values that break it.
#[derive(Copy, Clone, Debug, PartialEq, Eq, Structural)]
pub enum InvariantViolation {
    /// An escrow amount below zero, found by the balance check.
    BalanceCheckNegativeAmount { amount: i128 },
    /// An escrow amount above what the contract holds.
    ExceedsContractBalance { amount: i128, balance: i128 },
    InvalidStateTransition { from: EscrowStatus, to: EscrowStatus },
    SessionsExceedTotal { sessions_completed: u32, total_sessions: u32 },
    FundsNotConserved { distributed: i128, original: i128 },
    RecipientCount { recipients: u32 },
    NegativeAmount { amount: i128 },
    CreatedInFuture { created_at: u64, current_time: u64 },
}

impl InvariantViolation {
    /// The message with which the check aborts.
    pub fn message(&self) -> (m: &'static str)
        ensures
            m == (match *self {
                InvariantViolation::BalanceCheckNegativeAmount { .. } =>
                    "Invariant 1 violated: escrow amount is negative",
                InvariantViolation::ExceedsContractBalance { .. } =>
                    "Invariant 1 violated: escrow amount exceeds contract balance",
                InvariantViolation::InvalidStateTransition { .. } =>
                    "Invariant 2 violated: invalid state transition",
                InvariantViolation::SessionsExceedTotal { .. } =>
                    "Invariant 3 violated: sessions_completed > total_sessions",
                InvariantViolation::FundsNotConserved { .. } =>
                    "Invariant 4 violated: distributed != original",
                InvariantViolation::RecipientCount { .. } =>
                    "Invariant 5 violated: wrong number of recipients selected, expected 1",
                InvariantViolation::NegativeAmount { .. } =>
                    "Invariant 6 violated: escrow amount is negative",
                InvariantViolation::CreatedInFuture { .. } =>
                    "Invariant 7 violated: created_at > current_time",
            }),
    {
        match self {
            InvariantViolation::BalanceCheckNegativeAmount { .. } =>
                "Invariant 1 violated: escrow amount is negative",
            InvariantViolation::ExceedsContractBalance { .. } =>
                "Invariant 1 violated: escrow amount exceeds contract balance",
            InvariantViolation::InvalidStateTransition { .. } =>
                "Invariant 2 violated: invalid state transition",
            InvariantViolation::SessionsExceedTotal { .. } =>
                "Invariant 3 violated: sessions_completed > total_sessions",
            InvariantViolation::FundsNotConserved { .. } =>
                "Invariant 4 violated: distributed != original",
            InvariantViolation::RecipientCount { .. } =>
                "Invariant 5 violated: wrong number of recipients selected, expected 1",
            InvariantViolation::NegativeAmount { .. } =>
                "Invariant 6 violated: escrow amount is negative",
            InvariantViolation::CreatedInFuture { .. } =>
                "Invariant 7 violated: created_at > current_time",
        }
    }
}

/// The status changes the escrow contract may make.
pub open spec fn valid_transition(from: EscrowStatus, to: EscrowStatus) -> bool {
    ||| from == EscrowStatus::Active && to == EscrowStatus::Released
    ||| from == EscrowStatus::Active && to == EscrowStatus::Disputed
    ||| from == EscrowStatus::Disputed && to == EscrowStatus::Released
    ||| from == EscrowStatus::Disputed && to == EscrowStatus::Active
}

/// How many of the three flags are set.
pub open spec fn count_set(a: bool, b: bool, c: bool) -> int {
    (if a {
        1int
    } else {
        0int
    }) + (if b {
        1int
    } else {
        0int
    }) + (if c {
        1int
    } else {
        0int
    })
}

/// Invariant 1: the escrow amount is non-negative and covered by the
/// contract's token balance (which the host reads from the token contract).
pub fn check_token_balance_consistency(escrow: &Escrow, contract_balance: i128) -> (r: Result<
    (),
    InvariantViolation,
>)
    ensures
        r == (if escrow.amount < 0 {
            Err(InvariantViolation::BalanceCheckNegativeAmount { amount: escrow.amount })
        } else if escrow.amount > contract_balance {
            Err(
                InvariantViolation::ExceedsContractBalance {
                    amount: escrow.amount,
                    balance: contract_balance,
                },
            )
        } else {
            Ok(())
        }),
{
    if escrow.amount < 0 {
        return Err(InvariantViolation::BalanceCheckNegativeAmount { amount: escrow.amount });
    }
    if escrow.amount > contract_balance {
        return Err(
            InvariantViolation::ExceedsContractBalance {
                amount: escrow.amount,
                balance: contract_balance,
            },
        );
    }
    Ok(())
}

/// Invariant 2: a status change follows the escrow state machine.
pub fn check_state_transition_validity(from_status: &EscrowStatus, to_status: &EscrowStatus) -> (r:
    Result<(), InvariantViolation>)
    ensures
        r == (if valid_transition(*from_status, *to_status) {
            Ok(())
        } else {
            Err(InvariantViolation::InvalidStateTransition { from: *from_status, to: *to_status })
        }),
{
    let valid = match (from_status, to_status) {
        (EscrowStatus::Active, EscrowStatus::Released) => true,
        (EscrowStatus::Active, EscrowStatus::Disputed) => true,
        (EscrowStatus::Disputed, EscrowStatus::Released) => true,
        (EscrowStatus::Disputed, EscrowStatus::Active) => true,
        _ => false,
    };
    if !valid {
        return Err(
            InvariantViolation::InvalidStateTransition { from: *from_status, to: *to_status },
        );
    }
    Ok(())
}

/// Invariant 3: no more sessions are completed than were booked.
pub fn check_session_completion_bounds(sessions_completed: u32, total_sessions: u32) -> (r: Result<
    (),
    InvariantViolation,
>)
    ensures
        r == (if sessions_completed <= total_sessions {
            Ok(())
        } else {
            Err(InvariantViolation::SessionsExceedTotal { sessions_completed, total_sessions })
        }),
{
    if sessions_completed > total_sessions {
        return Err(InvariantViolation::SessionsExceedTotal { sessions_completed, total_sessions });
    }
    Ok(())
}

/// Invariant 4: the fee and the net amount add up to the original amount.
pub fn check_fund_conservation(platform_fee: i128, net_amount: i128, original: i128) -> (r: Result<
    (),
    InvariantViolation,
>)
    requires
        i128::MIN <= platform_fee + net_amount <= i128::MAX,
    ensures
        r == (if platform_fee + net_amount == original {
            Ok(())
        } else {
            Err(
                InvariantViolation::FundsNotConserved {
                    distributed: (platform_fee + net_amount) as i128,
                    original,
                },
            )
        }),
{
    let total_distributed = platform_fee + net_amount;
    if total_distributed != original {
        return Err(InvariantViolation::FundsNotConserved { distributed: total_distributed, original });
    }
    Ok(())
}

/// Invariant 5: exactly one party receives the released funds.
pub fn check_exclusive_distribution(
    mentor_receives: bool,
    learner_receives: bool,
    treasury_receives: bool,
) -> (r: Result<(), InvariantViolation>)
    ensures
        r == (if count_set(mentor_receives, learner_receives, treasury_receives) == 1 {
            Ok(())
        } else {
            Err(
                InvariantViolation::RecipientCount {
                    recipients: count_set(mentor_receives, learner_receives, treasury_receives) as u32,
                },
            )
        }),
{
    let mut recipient_count: u32 = 0;
    if mentor_receives {
        recipient_count = recipient_count + 1;
    }
    if learner_receives {
        recipient_count = recipient_count + 1;
    }
    if treasury_receives {
        recipient_count = recipient_count + 1;
    }
    if recipient_count != 1 {
        return Err(InvariantViolation::RecipientCount { recipients: recipient_count });
    }
    Ok(())
}

/// Invariant 6: an escrow amount is never negative.
pub fn check_amount_non_negativity(amount: i128) -> (r: Result<(), InvariantViolation>)
    ensures
        r == (if amount >= 0 {
            Ok(())
        } else {
            Err(InvariantViolation::NegativeAmount { amount })
        }),
{
    if amount < 0 {
        return Err(InvariantViolation::NegativeAmount { amount });
    }
    Ok(())
}

/// Invariant 7: an escrow is not created after the present.
pub fn check_timestamp_consistency(created_at: u64, current_time: u64) -> (r: Result<
    (),
    InvariantViolation,
>)
    ensures
        r == (if created_at <= current_time {
            Ok(())
        } else {
            Err(InvariantViolation::CreatedInFuture { created_at, current_time })
        }),
{
    if created_at > current_time {
        return Err(InvariantViolation::CreatedInFuture { created_at, current_time });
    }
    Ok(())
}

/// Released, refunded and resolved escrows never change status again, and
/// no status changes into itself.
pub proof fn lemma_settled_escrows_are_final(from: EscrowStatus, to: EscrowStatus)
    ensures
        (from == EscrowStatus::Released || from == EscrowStatus::Refunded || from
            == EscrowStatus::Resolved) ==> !valid_transition(from, to),
        !valid_transition(from, from),
        valid_transition(from, to) ==> to != EscrowStatus::Refunded && to
            != EscrowStatus::Resolved,
{
}

} // verus!
