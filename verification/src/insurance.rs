//! Insurance pool: providers deposit into a shared pool, the admin pays
//! learners' claims from it, and the pool's coverage of the active escrow
//! value is reported in basis points.
use std::collections::HashMap;
use vstd::prelude::*;

use crate::arith::{div_i128, trunc_div};
use crate::ids::{AccountId, SymbolId};

verus! {

broadcast use vstd::std_specs::hash::group_hash_axioms;

#[derive(Copy, Clone, Debug, PartialEq, Eq, Structural)]
pub enum Error {
    AlreadyInitialized,
    NotInitialized,
    NotAdmin,
    InsufficientShares,
    WithdrawLocked,
    InsufficientPoolBalance,
    ZeroAmount,
}

/// 7-day withdrawal lock in seconds.
pub const WITHDRAW_LOCK_SECS: u64 = 7 * 24 * 60 * 60;

/// Yield: 0.1% of platform fees (10 bps).
pub const YIELD_BPS: u32 = 10;

/// Coverage alert threshold: 500 bps (5%).
pub const COVERAGE_ALERT_BPS: u32 = 500;

/// The pool's stored state.
pub struct InsuranceContract {
    pub admin: Option<AccountId>,
    pub token: Option<AccountId>,
    pub pool_balance: i128,
    pub total_claims_paid: i128,
    pub total_active_escrow: i128,
    pub provider_shares: HashMap<AccountId, i128>,
    pub withdraw_unlock: HashMap<AccountId, u64>,
}

impl InsuranceContract {
    /// Shares held by `provider` (zero when none were recorded).
    pub open spec fn shares_of(&self, provider: AccountId) -> i128 {
        if self.provider_shares@.contains_key(provider) {
            self.provider_shares@[provider]
        } else {
            0
        }
    }

    /// Time before which `provider` may not withdraw (zero when unset).
    pub open spec fn unlock_of(&self, provider: AccountId) -> u64 {
        if self.withdraw_unlock@.contains_key(provider) {
            self.withdraw_unlock@[provider]
        } else {
            0
        }
    }

    /// The yield credited for a platform fee: `fee * YIELD_BPS / 10_000`.
    pub open spec fn yield_for(platform_fee: i128) -> int {
        trunc_div(platform_fee * YIELD_BPS, 10_000)
    }

    /// Coverage in basis points as a mathematical integer.
    pub open spec fn coverage_value(&self) -> int {
        trunc_div(self.pool_balance * 10_000, self.total_active_escrow as int)
    }

    /// Nothing but the pool balance, the claims total and the provider
    /// shares differ between `self` and `other`.
    pub open spec fn same_config(&self, other: &Self) -> bool {
        &&& self.admin == other.admin
        &&& self.token == other.token
        &&& self.total_active_escrow == other.total_active_escrow
        &&& self.withdraw_unlock@ == other.withdraw_unlock@
    }

    /// A pool that has not been initialized.
    pub fn new() -> (s: Self)
        ensures
            s.admin is None,
            s.token is None,
            s.pool_balance == 0,
            s.total_claims_paid == 0,
            s.total_active_escrow == 0,
            s.provider_shares@ == Map::<AccountId, i128>::empty(),
            s.withdraw_unlock@ == Map::<AccountId, u64>::empty(),
    {
        InsuranceContract {
            admin: None,
            token: None,
            pool_balance: 0,
            total_claims_paid: 0,
            total_active_escrow: 0,
            provider_shares: HashMap::new(),
            withdraw_unlock: HashMap::new(),
        }
    }

    fn assert_initialized(&self) -> (r: Result<(), Error>)
        ensures
            r == (if self.admin is Some { Ok(()) } else { Err(Error::NotInitialized) }),
    {
        if self.admin.is_none() {
            return Err(Error::NotInitialized);
        }
        Ok(())
    }

    fn read_shares(&self, provider: AccountId) -> (s: i128)
        ensures
            s == self.shares_of(provider),
    {
        match self.provider_shares.get(&provider) {
            Some(v) => *v,
            None => 0,
        }
    }

    /// Initialize the pool with its admin and token.
    pub fn initialize(&mut self, admin: AccountId, token: AccountId) -> (r: Result<(), Error>)
        ensures
            old(self).admin is Some ==> r == Err::<(), Error>(Error::AlreadyInitialized)
                && final(self).admin == old(self).admin && final(self).token == old(self).token
                && final(self).pool_balance == old(self).pool_balance
                && final(self).total_claims_paid == old(self).total_claims_paid
                && final(self).total_active_escrow == old(self).total_active_escrow
                && final(self).provider_shares@ == old(self).provider_shares@
                && final(self).withdraw_unlock@ == old(self).withdraw_unlock@,
            old(self).admin is None ==> r == Ok::<(), Error>(())
                && final(self).admin == Some(admin) && final(self).token == Some(token)
                && final(self).pool_balance == 0 && final(self).total_claims_paid == 0
                && final(self).total_active_escrow == 0
                && final(self).provider_shares@ == old(self).provider_shares@
                && final(self).withdraw_unlock@ == old(self).withdraw_unlock@,
    {
        if self.admin.is_some() {
            return Err(Error::AlreadyInitialized);
        }
        self.admin = Some(admin);
        self.token = Some(token);
        self.pool_balance = 0;
        self.total_claims_paid = 0;
        self.total_active_escrow = 0;
        Ok(())
    }

    /// Deposit `amount` into the pool at ledger time `now`; the host moves
    /// `amount` tokens from `provider` to the contract when this returns
    /// `Ok`.  A deposit starts the provider's 7-day withdrawal lock.
    pub fn deposit(&mut self, provider: AccountId, amount: i128, now: u64) -> (r: Result<(), Error>)
        requires
            old(self).admin is Some && amount > 0 ==> old(self).shares_of(provider) + amount
                <= i128::MAX && old(self).pool_balance + amount <= i128::MAX && now
                + WITHDRAW_LOCK_SECS <= u64::MAX,
        ensures
            final(self).withdraw_unlock@ == (if r is Ok {
                old(self).withdraw_unlock@.insert(provider, (now + WITHDRAW_LOCK_SECS) as u64)
            } else {
                old(self).withdraw_unlock@
            }),
            old(self).admin is None ==> r == Err::<(), Error>(Error::NotInitialized),
            old(self).admin is Some && amount <= 0 ==> r == Err::<(), Error>(Error::ZeroAmount),
            r is Err ==> final(self).pool_balance == old(self).pool_balance
                && final(self).provider_shares@ == old(self).provider_shares@,
            old(self).admin is Some && amount > 0 ==> r == Ok::<(), Error>(())
                && final(self).pool_balance == old(self).pool_balance + amount
                && final(self).provider_shares@ == old(self).provider_shares@.insert(
                provider,
                (old(self).shares_of(provider) + amount) as i128,
            ),
            final(self).total_claims_paid == old(self).total_claims_paid,
            final(self).admin == old(self).admin,
            final(self).token == old(self).token,
            final(self).total_active_escrow == old(self).total_active_escrow,
    {
        self.assert_initialized()?;
        if amount <= 0 {
            return Err(Error::ZeroAmount);
        }
        let shares = self.read_shares(provider);
        self.provider_shares.insert(provider, shares + amount);
        self.pool_balance = self.pool_balance + amount;
        self.withdraw_unlock.insert(provider, now + WITHDRAW_LOCK_SECS);
        Ok(())
    }

    /// Withdraw `amount` from the pool; the host moves `amount` tokens from
    /// the contract to `provider` when this returns `Ok`.
    pub fn withdraw(&mut self, provider: AccountId, amount: i128, now: u64) -> (r: Result<
        (),
        Error,
    >)
        ensures
            r == (if old(self).admin is None {
                Err(Error::NotInitialized)
            } else if amount <= 0 {
                Err(Error::ZeroAmount)
            } else if now < old(self).unlock_of(provider) {
                Err(Error::WithdrawLocked)
            } else if old(self).shares_of(provider) < amount {
                Err(Error::InsufficientShares)
            } else if old(self).pool_balance < amount {
                Err(Error::InsufficientPoolBalance)
            } else {
                Ok(())
            }),
            r is Err ==> final(self).pool_balance == old(self).pool_balance
                && final(self).provider_shares@ == old(self).provider_shares@,
            r is Ok ==> final(self).pool_balance == old(self).pool_balance - amount
                && final(self).provider_shares@ == old(self).provider_shares@.insert(
                provider,
                (old(self).shares_of(provider) - amount) as i128,
            ),
            final(self).total_claims_paid == old(self).total_claims_paid,
            final(self).same_config(old(self)),
    {
        self.assert_initialized()?;
        if amount <= 0 {
            return Err(Error::ZeroAmount);
        }
        let unlock_time = match self.withdraw_unlock.get(&provider) {
            Some(t) => *t,
            None => 0,
        };
        if now < unlock_time {
            return Err(Error::WithdrawLocked);
        }
        let shares = self.read_shares(provider);
        if shares < amount {
            return Err(Error::InsufficientShares);
        }
        let pool = self.pool_balance;
        if pool < amount {
            return Err(Error::InsufficientPoolBalance);
        }
        self.provider_shares.insert(provider, shares - amount);
        self.pool_balance = pool - amount;
        Ok(())
    }

    /// Pay `amount` to `learner` for the escrow `escrow_id` (admin only; the
    /// host checks the admin's authorization and moves the tokens).
    pub fn claim(&mut self, escrow_id: SymbolId, learner: AccountId, amount: i128) -> (r: Result<
        (),
        Error,
    >)
        requires
            old(self).admin is Some && amount > 0 && old(self).pool_balance >= amount
                ==> old(self).total_claims_paid + amount <= i128::MAX,
        ensures
            r == (if old(self).admin is None {
                Err(Error::NotInitialized)
            } else if amount <= 0 {
                Err(Error::ZeroAmount)
            } else if old(self).pool_balance < amount {
                Err(Error::InsufficientPoolBalance)
            } else {
                Ok(())
            }),
            r is Err ==> final(self).pool_balance == old(self).pool_balance
                && final(self).total_claims_paid == old(self).total_claims_paid,
            r is Ok ==> final(self).pool_balance == old(self).pool_balance - amount
                && final(self).total_claims_paid == old(self).total_claims_paid + amount,
            final(self).provider_shares@ == old(self).provider_shares@,
            final(self).same_config(old(self)),
    {
        self.assert_initialized()?;
        if amount <= 0 {
            return Err(Error::ZeroAmount);
        }
        let pool = self.pool_balance;
        if pool < amount {
            return Err(Error::InsufficientPoolBalance);
        }
        self.pool_balance = pool - amount;
        self.total_claims_paid = self.total_claims_paid + amount;
        Ok(())
    }

    /// Credit `provider` with 0.1% of a platform fee (admin only).
    pub fn accrue_yield(&mut self, provider: AccountId, platform_fee: i128) -> (r: Result<
        (),
        Error,
    >)
        requires
            old(self).admin is Some && platform_fee > 0 ==> platform_fee * YIELD_BPS
                <= i128::MAX && old(self).shares_of(provider) + Self::yield_for(platform_fee)
                <= i128::MAX && old(self).pool_balance + Self::yield_for(platform_fee)
                <= i128::MAX,
        ensures
            old(self).admin is None ==> r == Err::<(), Error>(Error::NotInitialized),
            old(self).admin is Some && platform_fee <= 0 ==> r == Err::<(), Error>(
                Error::ZeroAmount,
            ),
            r is Err ==> final(self).pool_balance == old(self).pool_balance
                && final(self).provider_shares@ == old(self).provider_shares@,
            old(self).admin is Some && platform_fee > 0 ==> r == Ok::<(), Error>(())
                && final(self).pool_balance == old(self).pool_balance + Self::yield_for(
                platform_fee,
            ) && final(self).provider_shares@ == old(self).provider_shares@.insert(
                provider,
                (old(self).shares_of(provider) + Self::yield_for(platform_fee)) as i128,
            ),
            final(self).total_claims_paid == old(self).total_claims_paid,
            final(self).same_config(old(self)),
    {
        self.assert_initialized()?;
        if platform_fee <= 0 {
            return Err(Error::ZeroAmount);
        }
        let yield_amount = div_i128(platform_fee * (YIELD_BPS as i128), 10_000);
        let shares = self.read_shares(provider);
        self.provider_shares.insert(provider, shares + yield_amount);
        self.pool_balance = self.pool_balance + yield_amount;
        Ok(())
    }

    /// Record the total value held in active escrows (admin only).
    pub fn set_active_escrow_value(&mut self, value: i128) -> (r: Result<(), Error>)
        ensures
            r == (if old(self).admin is Some { Ok(()) } else { Err(Error::NotInitialized) }),
            final(self).total_active_escrow == (if r is Ok {
                value
            } else {
                old(self).total_active_escrow
            }),
            final(self).admin == old(self).admin,
            final(self).token == old(self).token,
            final(self).pool_balance == old(self).pool_balance,
            final(self).total_claims_paid == old(self).total_claims_paid,
            final(self).provider_shares@ == old(self).provider_shares@,
            final(self).withdraw_unlock@ == old(self).withdraw_unlock@,
    {
        self.assert_initialized()?;
        self.total_active_escrow = value;
        Ok(())
    }

    /// Lock `provider`'s withdrawals for seven days from `now`.
    pub fn set_withdraw_lock(&mut self, provider: AccountId, now: u64) -> (r: Result<(), Error>)
        requires
            old(self).admin is Some ==> now + WITHDRAW_LOCK_SECS <= u64::MAX,
        ensures
            r == (if old(self).admin is Some { Ok(()) } else { Err(Error::NotInitialized) }),
            final(self).withdraw_unlock@ == (if r is Ok {
                old(self).withdraw_unlock@.insert(provider, (now + WITHDRAW_LOCK_SECS) as u64)
            } else {
                old(self).withdraw_unlock@
            }),
            final(self).admin == old(self).admin,
            final(self).token == old(self).token,
            final(self).pool_balance == old(self).pool_balance,
            final(self).total_claims_paid == old(self).total_claims_paid,
            final(self).total_active_escrow == old(self).total_active_escrow,
            final(self).provider_shares@ == old(self).provider_shares@,
    {
        self.assert_initialized()?;
        let unlock = now + WITHDRAW_LOCK_SECS;
        self.withdraw_unlock.insert(provider, unlock);
        Ok(())
    }

    /// `pool_balance * 10_000 / total_active_escrow`, cut to `u32`; zero when
    /// no active escrow value is set.
    pub fn get_coverage_ratio(&self) -> (r: u32)
        requires
            self.total_active_escrow != 0 ==> i128::MIN <= self.pool_balance * 10_000 <= i128::MAX
                && i128::MIN <= self.coverage_value() <= i128::MAX,
        ensures
            r == (if self.total_active_escrow == 0 {
                0
            } else {
                self.coverage_value() as u32
            }),
    {
        let active = self.total_active_escrow;
        if active == 0 {
            return 0;
        }
        let ratio = div_i128(self.pool_balance * 10_000, active);
        ratio as u32
    }

    pub fn get_pool_balance(&self) -> (r: i128)
        ensures
            r == self.pool_balance,
    {
        self.pool_balance
    }

    pub fn get_total_claims_paid(&self) -> (r: i128)
        ensures
            r == self.total_claims_paid,
    {
        self.total_claims_paid
    }

    pub fn get_provider_shares(&self, provider: AccountId) -> (r: i128)
        ensures
            r == self.shares_of(provider),
    {
        self.read_shares(provider)
    }

    /// True when coverage is positive but below the alert threshold.
    pub fn is_coverage_low(&self) -> (r: bool)
        requires
            self.total_active_escrow != 0 ==> i128::MIN <= self.pool_balance * 10_000 <= i128::MAX
                && i128::MIN <= self.coverage_value() <= i128::MAX,
        ensures
            r == (if self.total_active_escrow == 0 {
                false
            } else {
                let ratio = self.coverage_value() as u32;
                ratio > 0 && ratio < COVERAGE_ALERT_BPS
            }),
    {
        let ratio = self.get_coverage_ratio();
        ratio > 0 && ratio < COVERAGE_ALERT_BPS
    }
}

} // verus!
