//! Lending pool: lenders deposit USDC for LP tokens one to one, borrowers
//! take flat-fee loans against the pool's liquidity and repay principal plus
//! fee, and the admin liquidates overdue loans.
use std::collections::HashMap;
use vstd::prelude::*;

use crate::arith::{div_i128, trunc_div};
use crate::ids::{AccountId, SymbolId};
use crate::reentrancy_guard::{is_locked, GuardError, ReentrancyGuard};

verus! {

broadcast use vstd::std_specs::hash::group_hash_axioms;

#[derive(Copy, Clone, Debug, PartialEq, Eq, Structural)]
pub enum Error {
    NotInitialized,
    AlreadyInitialized,
    InsufficientBalance,
    InsufficientLiquidity,
    LowCreditScore,
    BorrowLimitExceeded,
    LoanNotFound,
    LoanAlreadyRepaid,
    NotAdmin,
    InvalidAmount,
}

/// Why a call that takes one of the pool's locks was refused.
#[derive(Copy, Clone, Debug, PartialEq, Eq, Structural)]
pub enum CallError {
    Refused(Error),
    /// The lock was already held: the contract aborts with "reentrant call".
    Reentrant(GuardError),
}

/// Why a liquidation was refused.
#[derive(Copy, Clone, Debug, PartialEq, Eq, Structural)]
pub enum LiquidationError {
    Refused(Error),
    /// The contract aborts with "loan not yet due".
    LoanNotYetDue,
}

#[derive(Copy, Clone, Debug, PartialEq, Eq, Structural)]
pub struct LoanRecord {
    pub borrower: AccountId,
    pub amount: i128,
    pub fee: i128,
    pub session_id: SymbolId,
    pub borrowed_at: u64,
    pub due_at: u64,
    pub repaid: bool,
}

#[derive(Copy, Clone, Debug, PartialEq, Eq, Structural)]
pub struct LenderRecord {
    pub lender: AccountId,
    pub lp_tokens: i128,
    pub deposited_at: u64,
}

/// 2% flat fee.
pub const INTEREST_RATE_BPS: i128 = 200;

pub const MIN_CREDIT_SCORE: u32 = 600;

pub const LIQUIDATION_DAYS: u64 = 30;

pub const LIQUIDATION_SECONDS: u64 = LIQUIDATION_DAYS * 86_400;

/// Name of the lock held while a loan is paid out.
pub const BORROW_LOCK: SymbolId = 1;

/// Name of the lock held while a loan is repaid.
pub const REPAY_LOCK: SymbolId = 2;

/// The flat fee charged on a loan of `amount`.
pub open spec fn loan_fee(amount: i128) -> int {
    trunc_div(amount * INTEREST_RATE_BPS, 10_000)
}

/// The pool's stored state.
pub struct LendingPool {
    pub admin: Option<AccountId>,
    pub usdc_token: Option<AccountId>,
    pub credit_score_contract: Option<AccountId>,
    pub total_liquidity: i128,
    pub total_lp_tokens: i128,
    pub lender_balance: HashMap<AccountId, i128>,
    pub loans: HashMap<AccountId, LoanRecord>,
    pub locks: HashMap<SymbolId, bool>,
}

impl LendingPool {
    pub open spec fn balance_of(&self, lender: AccountId) -> i128 {
        if self.lender_balance@.contains_key(lender) {
            self.lender_balance@[lender]
        } else {
            0
        }
    }

    /// The addresses the pool was set up with are the same.
    pub open spec fn same_config(&self, other: &Self) -> bool {
        &&& self.admin == other.admin
        &&& self.usdc_token == other.usdc_token
        &&& self.credit_score_contract == other.credit_score_contract
    }

    /// Every recorded lender balance is positive.
    pub open spec fn balances_positive(&self) -> bool {
        forall|l: AccountId| #[trigger] self.lender_balance@.contains_key(l) ==> self.lender_balance@[l] > 0
    }

    /// `post` is `pre` after `lender` deposited `amount`.
    pub open spec fn deposit_effect(pre: Self, post: Self, lender: AccountId, amount: i128) -> bool {
        &&& post.total_liquidity == pre.total_liquidity + amount
        &&& post.total_lp_tokens == pre.total_lp_tokens + amount
        &&& post.lender_balance@ == pre.lender_balance@.insert(
            lender,
            (pre.balance_of(lender) + amount) as i128,
        )
    }

    /// `post` is `pre` after `lender` burnt `lp_amount` LP tokens.
    pub open spec fn withdraw_effect(pre: Self, post: Self, lender: AccountId, lp_amount: i128) -> bool {
        &&& post.total_liquidity == pre.total_liquidity - lp_amount
        &&& post.total_lp_tokens == pre.total_lp_tokens - lp_amount
        &&& post.lender_balance@ == (if pre.balance_of(lender) == lp_amount {
            pre.lender_balance@.remove(lender)
        } else {
            pre.lender_balance@.insert(lender, (pre.balance_of(lender) - lp_amount) as i128)
        })
    }

    /// A pool that has not been initialized.
    pub fn new() -> (s: Self)
        ensures
            s.admin is None,
            s.usdc_token is None,
            s.credit_score_contract is None,
            s.total_liquidity == 0,
            s.total_lp_tokens == 0,
            s.lender_balance@ == Map::<AccountId, i128>::empty(),
            s.loans@ == Map::<AccountId, LoanRecord>::empty(),
            s.locks@ == Map::<SymbolId, bool>::empty(),
            s.balances_positive(),
    {
        LendingPool {
            admin: None,
            usdc_token: None,
            credit_score_contract: None,
            total_liquidity: 0,
            total_lp_tokens: 0,
            lender_balance: HashMap::new(),
            loans: HashMap::new(),
            locks: HashMap::new(),
        }
    }

    /// Initialize the pool.
    pub fn initialize(
        &mut self,
        admin: AccountId,
        usdc_token: AccountId,
        credit_score_contract: AccountId,
    ) -> (r: Result<(), Error>)
        ensures
            r == (if old(self).admin is Some {
                Err(Error::AlreadyInitialized)
            } else {
                Ok(())
            }),
            r is Err ==> final(self).admin == old(self).admin && final(self).usdc_token == old(self).usdc_token && final(self).credit_score_contract == old(self).credit_score_contract
                && final(self).total_liquidity == old(self).total_liquidity
                && final(self).total_lp_tokens == old(self).total_lp_tokens,
            r is Ok ==> final(self).admin == Some(admin) && final(self).usdc_token == Some(
                usdc_token,
            ) && final(self).credit_score_contract == Some(credit_score_contract)
                && final(self).total_liquidity == 0 && final(self).total_lp_tokens == 0,
            final(self).lender_balance@ == old(self).lender_balance@,
            final(self).loans@ == old(self).loans@,
            final(self).locks@ == old(self).locks@,
    {
        if self.admin.is_some() {
            return Err(Error::AlreadyInitialized);
        }
        self.admin = Some(admin);
        self.usdc_token = Some(usdc_token);
        self.credit_score_contract = Some(credit_score_contract);
        self.total_liquidity = 0;
        self.total_lp_tokens = 0;
        Ok(())
    }

    fn read_balance(&self, lender: AccountId) -> (b: i128)
        ensures
            b == self.balance_of(lender),
    {
        match self.lender_balance.get(&lender) {
            Some(b) => *b,
            None => 0,
        }
    }

    /// Deposit `amount` USDC (moved from `lender` by the host) and receive
    /// as many LP tokens.
    pub fn deposit(&mut self, lender: AccountId, amount: i128) -> (r: Result<i128, Error>)
        requires
            old(self).admin is Some && amount > 0 ==> old(self).total_liquidity + amount
                <= i128::MAX && old(self).total_lp_tokens + amount <= i128::MAX && old(self).balance_of(lender) + amount <= i128::MAX,
        ensures
            r == (if old(self).admin is None {
                Err(Error::NotInitialized)
            } else if amount <= 0 {
                Err(Error::InvalidAmount)
            } else {
                Ok(amount)
            }),
            r is Err ==> final(self).total_liquidity == old(self).total_liquidity
                && final(self).total_lp_tokens == old(self).total_lp_tokens
                && final(self).lender_balance@ == old(self).lender_balance@,
            r is Ok ==> Self::deposit_effect(*old(self), *final(self), lender, amount),
            old(self).balances_positive() ==> final(self).balances_positive(),
            final(self).loans@ == old(self).loans@,
            final(self).same_config(old(self)),
            final(self).locks@ == old(self).locks@,
    {
        if self.admin.is_none() {
            return Err(Error::NotInitialized);
        }
        if amount <= 0 {
            return Err(Error::InvalidAmount);
        }
        let lp_tokens = amount;
        self.total_liquidity = self.total_liquidity + amount;
        self.total_lp_tokens = self.total_lp_tokens + lp_tokens;
        let balance = self.read_balance(lender);
        self.lender_balance.insert(lender, balance + lp_tokens);
        Ok(lp_tokens)
    }

    /// Burn `lp_amount` LP tokens for as many USDC (moved to `lender` by the
    /// host).  A lender whose balance reaches zero is forgotten.
    pub fn withdraw(&mut self, lender: AccountId, lp_amount: i128) -> (r: Result<i128, Error>)
        requires
            old(self).admin is Some && lp_amount > 0 && old(self).balance_of(lender) >= lp_amount
                ==> old(self).total_liquidity - lp_amount >= i128::MIN && old(self).total_lp_tokens
                - lp_amount >= i128::MIN,
        ensures
            r == (if old(self).admin is None {
                Err(Error::NotInitialized)
            } else if lp_amount <= 0 {
                Err(Error::InvalidAmount)
            } else if old(self).balance_of(lender) < lp_amount {
                Err(Error::InsufficientBalance)
            } else {
                Ok(lp_amount)
            }),
            r is Err ==> final(self).total_liquidity == old(self).total_liquidity
                && final(self).total_lp_tokens == old(self).total_lp_tokens
                && final(self).lender_balance@ == old(self).lender_balance@,
            r is Ok ==> Self::withdraw_effect(*old(self), *final(self), lender, lp_amount),
            old(self).balances_positive() ==> final(self).balances_positive(),
            final(self).loans@ == old(self).loans@,
            final(self).same_config(old(self)),
            final(self).locks@ == old(self).locks@,
    {
        if self.admin.is_none() {
            return Err(Error::NotInitialized);
        }
        if lp_amount <= 0 {
            return Err(Error::InvalidAmount);
        }
        let balance = self.read_balance(lender);
        if balance < lp_amount {
            return Err(Error::InsufficientBalance);
        }
        let usdc_amount = lp_amount;
        self.total_liquidity = self.total_liquidity - usdc_amount;
        self.total_lp_tokens = self.total_lp_tokens - lp_amount;
        let new_balance = balance - lp_amount;
        if new_balance == 0 {
            self.lender_balance.remove(&lender);
        } else {
            self.lender_balance.insert(lender, new_balance);
        }
        Ok(usdc_amount)
    }

    /// Why `borrow` of `amount` is refused on `pre`, if it is.
    pub open spec fn borrow_refusal(pre: &Self, amount: i128) -> Option<CallError> {
        if is_locked(pre.locks@, BORROW_LOCK) {
            Some(CallError::Reentrant(GuardError::ReentrantCall))
        } else if pre.admin is None {
            Some(CallError::Refused(Error::NotInitialized))
        } else if amount <= 0 {
            Some(CallError::Refused(Error::InvalidAmount))
        } else if pre.total_liquidity < amount {
            Some(CallError::Refused(Error::InsufficientLiquidity))
        } else {
            None
        }
    }

    /// Lend `amount` to `borrower` at time `now` for a flat 2% fee, due in
    /// 30 days.  Any earlier loan record of the borrower is replaced.
    ///
    /// On success the borrow lock stays held and its guard is returned: the
    /// host pays the amount out and then hands the guard to `end_call`, so
    /// a call that re-enters the pool during the payout is refused.  On a
    /// refusal the lock is released again.
    pub fn borrow(&mut self, borrower: AccountId, amount: i128, session_id: SymbolId, now: u64) -> (r:
        Result<ReentrancyGuard, CallError>)
        requires
            Self::borrow_refusal(old(self), amount) is None ==> amount * INTEREST_RATE_BPS
                <= i128::MAX && now + LIQUIDATION_SECONDS <= u64::MAX,
        ensures
            r is Ok <==> Self::borrow_refusal(old(self), amount) is None,
            r is Err ==> Self::borrow_refusal(old(self), amount) == Some(r->Err_0),
            r is Err ==> final(self).total_liquidity == old(self).total_liquidity
                && final(self).loans@ == old(self).loans@
                && final(self).locks@ == (if is_locked(old(self).locks@, BORROW_LOCK) {
                    old(self).locks@
                } else {
                    old(self).locks@.remove(BORROW_LOCK)
                }),
            r is Ok ==> r->Ok_0.name() == BORROW_LOCK
                && final(self).locks@ == old(self).locks@.insert(BORROW_LOCK, true)
                && final(self).total_liquidity == old(self).total_liquidity - amount
                && final(self).loans@ == old(self).loans@.insert(
                borrower,
                LoanRecord {
                    borrower,
                    amount,
                    fee: loan_fee(amount) as i128,
                    session_id,
                    borrowed_at: now,
                    due_at: (now + LIQUIDATION_SECONDS) as u64,
                    repaid: false,
                },
            ),
            final(self).total_lp_tokens == old(self).total_lp_tokens,
            final(self).lender_balance@ == old(self).lender_balance@,
            final(self).same_config(old(self)),
    {
        let guard = match ReentrancyGuard::enter(&mut self.locks, BORROW_LOCK) {
            Ok(g) => g,
            Err(e) => return Err(CallError::Reentrant(e)),
        };
        match self.borrow_locked(borrower, amount, session_id, now) {
            Ok(()) => Ok(guard),
            Err(e) => {
                guard.release(&mut self.locks);
                Err(CallError::Refused(e))
            },
        }
    }

    fn borrow_locked(&mut self, borrower: AccountId, amount: i128, session_id: SymbolId, now: u64) -> (r:
        Result<(), Error>)
        requires
            old(self).admin is Some && amount > 0 && old(self).total_liquidity >= amount ==> amount
                * INTEREST_RATE_BPS <= i128::MAX && now + LIQUIDATION_SECONDS <= u64::MAX,
        ensures
            r == (if old(self).admin is None {
                Err(Error::NotInitialized)
            } else if amount <= 0 {
                Err(Error::InvalidAmount)
            } else if old(self).total_liquidity < amount {
                Err(Error::InsufficientLiquidity)
            } else {
                Ok(())
            }),
            r is Err ==> final(self).total_liquidity == old(self).total_liquidity
                && final(self).loans@ == old(self).loans@,
            r is Ok ==> final(self).total_liquidity == old(self).total_liquidity - amount
                && final(self).loans@ == old(self).loans@.insert(
                borrower,
                LoanRecord {
                    borrower,
                    amount,
                    fee: loan_fee(amount) as i128,
                    session_id,
                    borrowed_at: now,
                    due_at: (now + LIQUIDATION_SECONDS) as u64,
                    repaid: false,
                },
            ),
            final(self).total_lp_tokens == old(self).total_lp_tokens,
            final(self).lender_balance@ == old(self).lender_balance@,
            final(self).same_config(old(self)),
            final(self).locks@ == old(self).locks@,
    {
        if self.admin.is_none() {
            return Err(Error::NotInitialized);
        }
        if amount <= 0 {
            return Err(Error::InvalidAmount);
        }
        let total_liquidity = self.total_liquidity;
        if total_liquidity < amount {
            return Err(Error::InsufficientLiquidity);
        }
        let fee = div_i128(amount * INTEREST_RATE_BPS, 10_000);
        let loan = LoanRecord {
            borrower,
            amount,
            fee,
            session_id,
            borrowed_at: now,
            due_at: now + LIQUIDATION_SECONDS,
            repaid: false,
        };
        self.loans.insert(borrower, loan);
        self.total_liquidity = total_liquidity - amount;
        Ok(())
    }

    /// The amount a repayment must cover for `loan`.
    pub open spec fn owed(loan: LoanRecord) -> int {
        loan.amount + loan.fee
    }

    /// Why `repay` of `amount` for `borrower` is refused on `pre`, if it is.
    pub open spec fn repay_refusal(pre: &Self, borrower: AccountId, amount: i128) -> Option<
        CallError,
    > {
        if is_locked(pre.locks@, REPAY_LOCK) {
            Some(CallError::Reentrant(GuardError::ReentrantCall))
        } else if pre.admin is None {
            Some(CallError::Refused(Error::NotInitialized))
        } else if amount <= 0 {
            Some(CallError::Refused(Error::InvalidAmount))
        } else if !pre.loans@.contains_key(borrower) {
            Some(CallError::Refused(Error::LoanNotFound))
        } else if pre.loans@[borrower].repaid {
            Some(CallError::Refused(Error::LoanAlreadyRepaid))
        } else if amount < Self::owed(pre.loans@[borrower]) {
            Some(CallError::Refused(Error::InvalidAmount))
        } else {
            None
        }
    }

    /// Repay the borrower's loan with `amount`, which must cover principal
    /// plus fee.  On success the loan is marked repaid, the pool's liquidity
    /// grows by principal plus fee, and that owed amount is returned with the
    /// guard of the repay lock, which stays held: the host takes exactly the
    /// owed amount from the borrower and then hands the guard to `end_call`.
    /// On a refusal the lock is released again.
    pub fn repay(&mut self, borrower: AccountId, amount: i128) -> (r: Result<
        (ReentrancyGuard, i128),
        CallError,
    >)
        requires
            old(self).loans@.contains_key(borrower) ==> i128::MIN <= Self::owed(
                old(self).loans@[borrower],
            ) <= i128::MAX && i128::MIN <= old(self).total_liquidity + Self::owed(
                old(self).loans@[borrower],
            ) <= i128::MAX,
        ensures
            r is Ok <==> Self::repay_refusal(old(self), borrower, amount) is None,
            r is Err ==> Self::repay_refusal(old(self), borrower, amount) == Some(r->Err_0),
            r is Err ==> final(self).total_liquidity == old(self).total_liquidity
                && final(self).loans@ == old(self).loans@
                && final(self).locks@ == (if is_locked(old(self).locks@, REPAY_LOCK) {
                    old(self).locks@
                } else {
                    old(self).locks@.remove(REPAY_LOCK)
                }),
            r is Ok ==> r->Ok_0.0.name() == REPAY_LOCK
                && r->Ok_0.1 == Self::owed(old(self).loans@[borrower])
                && final(self).locks@ == old(self).locks@.insert(REPAY_LOCK, true)
                && final(self).total_liquidity == old(self).total_liquidity + Self::owed(
                old(self).loans@[borrower],
            ) && final(self).loans@ == old(self).loans@.insert(
                borrower,
                LoanRecord { repaid: true, ..old(self).loans@[borrower] },
            ),
            final(self).total_lp_tokens == old(self).total_lp_tokens,
            final(self).lender_balance@ == old(self).lender_balance@,
            final(self).same_config(old(self)),
    {
        let guard = match ReentrancyGuard::enter(&mut self.locks, REPAY_LOCK) {
            Ok(g) => g,
            Err(e) => return Err(CallError::Reentrant(e)),
        };
        match self.repay_locked(borrower, amount) {
            Ok(owed) => Ok((guard, owed)),
            Err(e) => {
                guard.release(&mut self.locks);
                Err(CallError::Refused(e))
            },
        }
    }

    /// Release the lock that `guard` holds, once the host has made the
    /// transfer of the call that took it.
    pub fn end_call(&mut self, guard: ReentrancyGuard)
        ensures
            final(self).locks@ == old(self).locks@.remove(guard.name()),
            final(self).total_liquidity == old(self).total_liquidity,
            final(self).total_lp_tokens == old(self).total_lp_tokens,
            final(self).lender_balance@ == old(self).lender_balance@,
            final(self).loans@ == old(self).loans@,
            final(self).same_config(old(self)),
    {
        guard.release(&mut self.locks);
    }

    fn repay_locked(&mut self, borrower: AccountId, amount: i128) -> (r: Result<i128, Error>)
        requires
            old(self).loans@.contains_key(borrower) ==> i128::MIN <= Self::owed(
                old(self).loans@[borrower],
            ) <= i128::MAX && i128::MIN <= old(self).total_liquidity + Self::owed(
                old(self).loans@[borrower],
            ) <= i128::MAX,
        ensures
            r == (if old(self).admin is None {
                Err(Error::NotInitialized)
            } else if amount <= 0 {
                Err(Error::InvalidAmount)
            } else if !old(self).loans@.contains_key(borrower) {
                Err(Error::LoanNotFound)
            } else if old(self).loans@[borrower].repaid {
                Err(Error::LoanAlreadyRepaid)
            } else if amount < Self::owed(old(self).loans@[borrower]) {
                Err(Error::InvalidAmount)
            } else {
                Ok(Self::owed(old(self).loans@[borrower]) as i128)
            }),
            r is Err ==> final(self).total_liquidity == old(self).total_liquidity
                && final(self).loans@ == old(self).loans@,
            r is Ok ==> final(self).total_liquidity == old(self).total_liquidity + Self::owed(
                old(self).loans@[borrower],
            ) && final(self).loans@ == old(self).loans@.insert(
                borrower,
                LoanRecord { repaid: true, ..old(self).loans@[borrower] },
            ),
            final(self).total_lp_tokens == old(self).total_lp_tokens,
            final(self).lender_balance@ == old(self).lender_balance@,
            final(self).same_config(old(self)),
            final(self).locks@ == old(self).locks@,
    {
        if self.admin.is_none() {
            return Err(Error::NotInitialized);
        }
        if amount <= 0 {
            return Err(Error::InvalidAmount);
        }
        let loan = match self.loans.get(&borrower) {
            Some(l) => *l,
            None => return Err(Error::LoanNotFound),
        };
        if loan.repaid {
            return Err(Error::LoanAlreadyRepaid);
        }
        let total_owed = loan.amount + loan.fee;
        if amount < total_owed {
            return Err(Error::InvalidAmount);
        }
        let updated = LoanRecord { repaid: true, ..loan };
        self.loans.insert(borrower, updated);
        self.total_liquidity = self.total_liquidity + total_owed;
        Ok(total_owed)
    }

    /// The loan record of `borrower`.
    pub fn get_loan(&self, borrower: AccountId) -> (r: Result<LoanRecord, Error>)
        ensures
            self.loans@.contains_key(borrower) ==> r == Ok::<LoanRecord, Error>(
                self.loans@[borrower],
            ),
            !self.loans@.contains_key(borrower) ==> r == Err::<LoanRecord, Error>(
                Error::LoanNotFound,
            ),
    {
        match self.loans.get(&borrower) {
            Some(l) => Ok(*l),
            None => Err(Error::LoanNotFound),
        }
    }

    /// Close an overdue loan at time `now` (admin only; the host checks the
    /// admin's authorization).
    pub fn liquidate(&mut self, borrower: AccountId, now: u64) -> (r: Result<(), LiquidationError>)
        ensures
            r == (if old(self).admin is None {
                Err(LiquidationError::Refused(Error::NotInitialized))
            } else if !old(self).loans@.contains_key(borrower) {
                Err(LiquidationError::Refused(Error::LoanNotFound))
            } else if old(self).loans@[borrower].repaid {
                Err(LiquidationError::Refused(Error::LoanAlreadyRepaid))
            } else if now <= old(self).loans@[borrower].due_at {
                Err(LiquidationError::LoanNotYetDue)
            } else {
                Ok(())
            }),
            final(self).loans@ == (if r is Ok {
                old(self).loans@.insert(borrower, LoanRecord { repaid: true, ..old(self).loans@[borrower] })
            } else {
                old(self).loans@
            }),
            final(self).total_liquidity == old(self).total_liquidity,
            final(self).total_lp_tokens == old(self).total_lp_tokens,
            final(self).lender_balance@ == old(self).lender_balance@,
            final(self).same_config(old(self)),
            final(self).locks@ == old(self).locks@,
    {
        if self.admin.is_none() {
            return Err(LiquidationError::Refused(Error::NotInitialized));
        }
        let loan = match self.loans.get(&borrower) {
            Some(l) => *l,
            None => return Err(LiquidationError::Refused(Error::LoanNotFound)),
        };
        if loan.repaid {
            return Err(LiquidationError::Refused(Error::LoanAlreadyRepaid));
        }
        if now <= loan.due_at {
            return Err(LiquidationError::LoanNotYetDue);
        }
        let updated = LoanRecord { repaid: true, ..loan };
        self.loans.insert(borrower, updated);
        Ok(())
    }
}

/// Deposits and withdrawals keep every recorded lender balance positive.
pub proof fn lemma_balances_stay_positive(
    pre: LendingPool,
    post: LendingPool,
    lender: AccountId,
    amount: i128,
)
    requires
        pre.balances_positive(),
        amount > 0,
        pre.balance_of(lender) + amount <= i128::MAX,
        LendingPool::deposit_effect(pre, post, lender, amount) || (LendingPool::withdraw_effect(
            pre,
            post,
            lender,
            amount,
        ) && pre.balance_of(lender) >= amount),
    ensures
        post.balances_positive(),
{
    assert forall|l: AccountId| #[trigger] post.lender_balance@.contains_key(l) implies post.lender_balance@[l] > 0 by {
        if l != lender {
            assert(pre.lender_balance@.contains_key(l));
        }
    }
}

/// On any pool whose recorded lender balances are all positive (every pool
/// that `new` and the pool's operations can reach), withdrawing what was just
/// deposited succeeds and returns the pool's totals and the lender balances
/// to what they were.
pub proof fn lemma_withdraw_undoes_deposit(
    start: LendingPool,
    mid: LendingPool,
    end: LendingPool,
    lender: AccountId,
    amount: i128,
)
    requires
        start.balances_positive(),
        amount > 0,
        start.balance_of(lender) + amount <= i128::MAX,
        LendingPool::deposit_effect(start, mid, lender, amount),
        LendingPool::withdraw_effect(mid, end, lender, amount),
    ensures
        mid.balance_of(lender) >= amount,
        end.total_liquidity == start.total_liquidity,
        end.total_lp_tokens == start.total_lp_tokens,
        end.lender_balance@ == start.lender_balance@,
        end.balance_of(lender) == start.balance_of(lender),
{
    assert(mid.balance_of(lender) == start.balance_of(lender) + amount);
    if start.lender_balance@.contains_key(lender) {
        assert(start.lender_balance@[lender] > 0);
        assert(end.lender_balance@ =~= start.lender_balance@);
    } else {
        assert(end.lender_balance@ =~= start.lender_balance@);
    }
}

} // verus!
