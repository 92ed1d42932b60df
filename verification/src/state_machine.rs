//! Lifecycle state machines shared by the contracts.
use vstd::prelude::*;

verus! {

/// A status type whose changes follow a fixed transition relation.
pub trait StateMachine: Sized {
    /// The transitions the machine allows.
    spec fn transition_allowed(from: Self, to: Self) -> bool;

    /// Checks if a transition from `from` to `to` is valid.
    fn is_valid_transition(from: &Self, to: &Self) -> (r: bool)
        ensures
            r == Self::transition_allowed(*from, *to),
    ;
}

#[derive(Copy, Clone, Debug, PartialEq, Eq, Structural)]
pub enum SubscriptionStatus {
    Trial,
    Active,
    GracePeriod,
    Paused,
    Cancelled,
    Expired,
}

impl StateMachine for SubscriptionStatus {
    open spec fn transition_allowed(from: Self, to: Self) -> bool {
        match (from, to) {
            (SubscriptionStatus::Trial, SubscriptionStatus::Active) => true,
            (SubscriptionStatus::Trial, SubscriptionStatus::Cancelled) => true,
            (SubscriptionStatus::Active, SubscriptionStatus::GracePeriod) => true,
            (SubscriptionStatus::Active, SubscriptionStatus::Paused) => true,
            (SubscriptionStatus::Active, SubscriptionStatus::Cancelled) => true,
            (SubscriptionStatus::GracePeriod, SubscriptionStatus::Active) => true,
            (SubscriptionStatus::GracePeriod, SubscriptionStatus::Expired) => true,
            (SubscriptionStatus::Paused, SubscriptionStatus::Active) => true,
            (SubscriptionStatus::Paused, SubscriptionStatus::Cancelled) => true,
            _ => false,
        }
    }

    fn is_valid_transition(from: &Self, to: &Self) -> (r: bool) {
        match (from, to) {
            (SubscriptionStatus::Trial, SubscriptionStatus::Active) => true,
            (SubscriptionStatus::Trial, SubscriptionStatus::Cancelled) => true,
            (SubscriptionStatus::Active, SubscriptionStatus::GracePeriod) => true,
            (SubscriptionStatus::Active, SubscriptionStatus::Paused) => true,
            (SubscriptionStatus::Active, SubscriptionStatus::Cancelled) => true,
            (SubscriptionStatus::GracePeriod, SubscriptionStatus::Active) => true,
            (SubscriptionStatus::GracePeriod, SubscriptionStatus::Expired) => true,
            (SubscriptionStatus::Paused, SubscriptionStatus::Active) => true,
            (SubscriptionStatus::Paused, SubscriptionStatus::Cancelled) => true,
            _ => false,
        }
    }
}

#[derive(Copy, Clone, Debug, PartialEq, Eq, Structural)]
pub enum LoanStatus {
    Pending,
    Active,
    Repaid,
    Defaulted,
    Cancelled,
}

impl StateMachine for LoanStatus {
    open spec fn transition_allowed(from: Self, to: Self) -> bool {
        match (from, to) {
            (LoanStatus::Pending, LoanStatus::Active) => true,
            (LoanStatus::Pending, LoanStatus::Cancelled) => true,
            (LoanStatus::Active, LoanStatus::Repaid) => true,
            (LoanStatus::Active, LoanStatus::Defaulted) => true,
            _ => false,
        }
    }

    fn is_valid_transition(from: &Self, to: &Self) -> (r: bool) {
        match (from, to) {
            (LoanStatus::Pending, LoanStatus::Active) => true,
            (LoanStatus::Pending, LoanStatus::Cancelled) => true,
            (LoanStatus::Active, LoanStatus::Repaid) => true,
            (LoanStatus::Active, LoanStatus::Defaulted) => true,
            _ => false,
        }
    }
}

#[derive(Copy, Clone, Debug, PartialEq, Eq, Structural)]
pub enum ISAStatus {
    Pending,
    StudyPeriod,
    GracePeriod,
    Repayment,
    Completed,
    Defaulted,
}

impl StateMachine for ISAStatus {
    open spec fn transition_allowed(from: Self, to: Self) -> bool {
        match (from, to) {
            (ISAStatus::Pending, ISAStatus::StudyPeriod) => true,
            (ISAStatus::StudyPeriod, ISAStatus::GracePeriod) => true,
            (ISAStatus::GracePeriod, ISAStatus::Repayment) => true,
            (ISAStatus::Repayment, ISAStatus::Completed) => true,
            (ISAStatus::Repayment, ISAStatus::Defaulted) => true,
            _ => false,
        }
    }

    fn is_valid_transition(from: &Self, to: &Self) -> (r: bool) {
        match (from, to) {
            (ISAStatus::Pending, ISAStatus::StudyPeriod) => true,
            (ISAStatus::StudyPeriod, ISAStatus::GracePeriod) => true,
            (ISAStatus::GracePeriod, ISAStatus::Repayment) => true,
            (ISAStatus::Repayment, ISAStatus::Completed) => true,
            (ISAStatus::Repayment, ISAStatus::Defaulted) => true,
            _ => false,
        }
    }
}

/// Position of a loan status along its lifecycle.
pub open spec fn loan_stage(s: LoanStatus) -> int {
    match s {
        LoanStatus::Pending => 0,
        LoanStatus::Active => 1,
        _ => 2,
    }
}

/// Position of an ISA status along its lifecycle.
pub open spec fn isa_stage(s: ISAStatus) -> int {
    match s {
        ISAStatus::Pending => 0,
        ISAStatus::StudyPeriod => 1,
        ISAStatus::GracePeriod => 2,
        ISAStatus::Repayment => 3,
        _ => 4,
    }
}

/// No status of any of the three machines may transition to itself.
pub proof fn lemma_no_self_transitions(
    s: SubscriptionStatus,
    l: LoanStatus,
    i: ISAStatus,
)
    ensures
        !SubscriptionStatus::transition_allowed(s, s),
        !LoanStatus::transition_allowed(l, l),
        !ISAStatus::transition_allowed(i, i),
{
}

/// Cancelled and expired subscriptions, repaid, defaulted and cancelled
/// loans, and completed or defaulted ISAs are final: no transition leaves
/// them.
pub proof fn lemma_terminal_states_are_final(
    s: SubscriptionStatus,
    l: LoanStatus,
    i: ISAStatus,
)
    ensures
        !SubscriptionStatus::transition_allowed(SubscriptionStatus::Cancelled, s),
        !SubscriptionStatus::transition_allowed(SubscriptionStatus::Expired, s),
        !LoanStatus::transition_allowed(LoanStatus::Repaid, l),
        !LoanStatus::transition_allowed(LoanStatus::Defaulted, l),
        !LoanStatus::transition_allowed(LoanStatus::Cancelled, l),
        !ISAStatus::transition_allowed(ISAStatus::Completed, i),
        !ISAStatus::transition_allowed(ISAStatus::Defaulted, i),
{
}

/// Loans and ISAs only move forward: every allowed transition strictly
/// advances the stage, so neither machine can return to an earlier status.
pub proof fn lemma_loans_and_isas_move_forward(
    a: LoanStatus,
    b: LoanStatus,
    c: ISAStatus,
    d: ISAStatus,
)
    ensures
        LoanStatus::transition_allowed(a, b) ==> loan_stage(a) < loan_stage(b),
        ISAStatus::transition_allowed(c, d) ==> isa_stage(c) < isa_stage(d),
{
}

} // verus!
