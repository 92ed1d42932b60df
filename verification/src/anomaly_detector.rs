//! Per-account activity monitor: counts escrow creations, disputes and
//! transfer volume in rolling windows and places accounts on hold.
use std::collections::HashMap;
use vstd::prelude::*;

use crate::ids::AccountId;

verus! {

broadcast use vstd::std_specs::hash::group_hash_axioms;

#[derive(Copy, Clone, Debug, PartialEq, Eq, Structural)]
pub enum Error {
    AlreadyInitialized,
    NotInitialized,
    NotAdmin,
    HoldActive,
}

#[derive(Copy, Clone, Debug, PartialEq, Eq, Structural)]
pub enum AnomalyAction {
    CreateEscrow,
    OpenDispute,
    LargeTransfer,
}

#[derive(Copy, Clone, Debug, PartialEq, Eq, Structural)]
pub enum AnomalyResult {
    Clear,
    Warning,
    Hold,
}

/// Per-address activity metrics.
#[derive(Copy, Clone, Debug, PartialEq, Eq, Structural)]
pub struct UserMetrics {
    /// Number of escrows created in the current 1-hour window
    pub escrows_created_1h: u32,
    /// Timestamp of the start of the current 1-hour escrow window
    pub escrow_window_start: u64,
    /// Number of disputes opened in the current 24-hour window
    pub disputes_opened_24h: u32,
    /// Timestamp of the start of the current 24-hour dispute window
    pub dispute_window_start: u64,
    /// Total volume transferred in the current 1-hour window (in token units)
    pub volume_1h: i128,
    /// Timestamp of the start of the current 1-hour volume window
    pub volume_window_start: u64,
}

pub const ESCROW_WARN_PER_HOUR: u32 = 10;

pub const DISPUTE_HOLD_PER_DAY: u32 = 3;

/// $50k in micro-units (6 decimals).
pub const VOLUME_HOLD_PER_HOUR: i128 = 50_000 * 1_000_000;

pub const ONE_HOUR_SECS: u64 = 3_600;

pub const ONE_DAY_SECS: u64 = 86_400;

/// `a + b`, held at `u32::MAX`.
pub open spec fn saturating_add_u32(a: u32, b: u32) -> u32 {
    if a + b > u32::MAX {
        u32::MAX
    } else {
        (a + b) as u32
    }
}

/// `a + b`, held at the nearer bound of `i128`.
pub open spec fn saturating_add_i128(a: i128, b: i128) -> i128 {
    if a + b > i128::MAX {
        i128::MAX
    } else if a + b < i128::MIN {
        i128::MIN
    } else {
        (a + b) as i128
    }
}

fn sat_add_i128(a: i128, b: i128) -> (r: i128)
    ensures
        r == saturating_add_i128(a, b),
{
    match a.checked_add(b) {
        Some(v) => v,
        None => if b > 0 {
            i128::MAX
        } else {
            i128::MIN
        },
    }
}

/// Metrics of an account with no recorded activity, at time `now`.
pub open spec fn default_metrics(now: u64) -> UserMetrics {
    UserMetrics {
        escrows_created_1h: 0,
        escrow_window_start: now,
        disputes_opened_24h: 0,
        dispute_window_start: now,
        volume_1h: 0,
        volume_window_start: now,
    }
}

/// The window of `action` can be tested without overflowing a timestamp.
pub open spec fn window_fits(m: UserMetrics, action: AnomalyAction) -> bool {
    match action {
        AnomalyAction::CreateEscrow => m.escrow_window_start + ONE_HOUR_SECS <= u64::MAX,
        AnomalyAction::OpenDispute => m.dispute_window_start + ONE_DAY_SECS <= u64::MAX,
        AnomalyAction::LargeTransfer => m.volume_window_start + ONE_HOUR_SECS <= u64::MAX,
    }
}

/// The metrics after recording `action` at `now`, and the verdict on it.
pub open spec fn record_action(m: UserMetrics, action: AnomalyAction, amount: i128, now: u64) -> (
    UserMetrics,
    AnomalyResult,
) {
    match action {
        AnomalyAction::CreateEscrow => {
            let expired = now >= m.escrow_window_start + ONE_HOUR_SECS;
            let count = saturating_add_u32(
                if expired { 0 } else { m.escrows_created_1h },
                1,
            );
            let m2 = UserMetrics {
                escrows_created_1h: count,
                escrow_window_start: if expired { now } else { m.escrow_window_start },
                ..m
            };
            (m2, if count > ESCROW_WARN_PER_HOUR { AnomalyResult::Warning } else { AnomalyResult::Clear })
        },
        AnomalyAction::OpenDispute => {
            let expired = now >= m.dispute_window_start + ONE_DAY_SECS;
            let count = saturating_add_u32(
                if expired { 0 } else { m.disputes_opened_24h },
                1,
            );
            let m2 = UserMetrics {
                disputes_opened_24h: count,
                dispute_window_start: if expired { now } else { m.dispute_window_start },
                ..m
            };
            (m2, if count > DISPUTE_HOLD_PER_DAY { AnomalyResult::Hold } else { AnomalyResult::Clear })
        },
        AnomalyAction::LargeTransfer => {
            let expired = now >= m.volume_window_start + ONE_HOUR_SECS;
            let volume = saturating_add_i128(if expired { 0 } else { m.volume_1h }, amount);
            let m2 = UserMetrics {
                volume_1h: volume,
                volume_window_start: if expired { now } else { m.volume_window_start },
                ..m
            };
            (m2, if volume > VOLUME_HOLD_PER_HOUR { AnomalyResult::Hold } else { AnomalyResult::Clear })
        },
    }
}

/// The monitor's stored state.
pub struct AnomalyDetectorContract {
    pub admin: Option<AccountId>,
    pub metrics: HashMap<AccountId, UserMetrics>,
    pub holds: HashMap<AccountId, bool>,
}

impl AnomalyDetectorContract {
    pub open spec fn on_hold(&self, user: AccountId) -> bool {
        self.holds@.contains_key(user) && self.holds@[user]
    }

    pub open spec fn metrics_of(&self, user: AccountId, now: u64) -> UserMetrics {
        if self.metrics@.contains_key(user) {
            self.metrics@[user]
        } else {
            default_metrics(now)
        }
    }

    /// A monitor that has not been initialized.
    pub fn new() -> (s: Self)
        ensures
            s.admin is None,
            s.metrics@ == Map::<AccountId, UserMetrics>::empty(),
            s.holds@ == Map::<AccountId, bool>::empty(),
    {
        AnomalyDetectorContract { admin: None, metrics: HashMap::new(), holds: HashMap::new() }
    }

    /// Initialize with an admin address.
    pub fn initialize(&mut self, admin: AccountId) -> (r: Result<(), Error>)
        ensures
            r == (if old(self).admin is Some {
                Err(Error::AlreadyInitialized)
            } else {
                Ok(())
            }),
            final(self).admin == (if r is Ok { Some(admin) } else { old(self).admin }),
            final(self).metrics@ == old(self).metrics@,
            final(self).holds@ == old(self).holds@,
    {
        if self.admin.is_some() {
            return Err(Error::AlreadyInitialized);
        }
        self.admin = Some(admin);
        Ok(())
    }

    fn assert_initialized(&self) -> (r: Result<(), Error>)
        ensures
            r == (if self.admin is Some { Ok(()) } else { Err(Error::NotInitialized) }),
    {
        if self.admin.is_none() {
            return Err(Error::NotInitialized);
        }
        Ok(())
    }

    fn get_or_default_metrics(&self, user: AccountId, now: u64) -> (m: UserMetrics)
        ensures
            m == self.metrics_of(user, now),
    {
        match self.metrics.get(&user) {
            Some(m) => *m,
            None => UserMetrics {
                escrows_created_1h: 0,
                escrow_window_start: now,
                disputes_opened_24h: 0,
                dispute_window_start: now,
                volume_1h: 0,
                volume_window_start: now,
            },
        }
    }

    /// Check an action for anomalies at time `now` and update the metrics.
    /// Returns Clear, Warning or Hold; a Hold also places `user` on hold.
    pub fn check_anomaly(
        &mut self,
        user: AccountId,
        action: AnomalyAction,
        amount: i128,
        now: u64,
    ) -> (r: Result<AnomalyResult, Error>)
        requires
            old(self).admin is Some && !old(self).on_hold(user) ==> window_fits(
                old(self).metrics_of(user, now),
                action,
            ),
        ensures
            old(self).admin is None ==> r == Err::<AnomalyResult, Error>(Error::NotInitialized),
            old(self).admin is Some && old(self).on_hold(user) ==> r == Ok::<
                AnomalyResult,
                Error,
            >(AnomalyResult::Hold),
            old(self).admin is None || old(self).on_hold(user) ==> final(self).metrics@ == old(
                self,
            ).metrics@ && final(self).holds@ == old(self).holds@,
            old(self).admin is Some && !old(self).on_hold(user) ==> {
                let (m2, verdict) = record_action(old(self).metrics_of(user, now), action, amount, now);
                &&& r == Ok::<AnomalyResult, Error>(verdict)
                &&& final(self).metrics@ == old(self).metrics@.insert(user, m2)
                &&& final(self).holds@ == (if verdict == AnomalyResult::Hold {
                    old(self).holds@.insert(user, true)
                } else {
                    old(self).holds@
                })
            },
            final(self).admin == old(self).admin,
    {
        self.assert_initialized()?;
        let held = match self.holds.get(&user) {
            Some(h) => *h,
            None => false,
        };
        if held {
            return Ok(AnomalyResult::Hold);
        }
        let mut metrics = self.get_or_default_metrics(user, now);
        let mut result = AnomalyResult::Clear;
        match action {
            AnomalyAction::CreateEscrow => {
                if now >= metrics.escrow_window_start + ONE_HOUR_SECS {
                    metrics.escrows_created_1h = 0;
                    metrics.escrow_window_start = now;
                }
                metrics.escrows_created_1h = metrics.escrows_created_1h.saturating_add(1);
                if metrics.escrows_created_1h > ESCROW_WARN_PER_HOUR {
                    result = AnomalyResult::Warning;
                }
            },
            AnomalyAction::OpenDispute => {
                if now >= metrics.dispute_window_start + ONE_DAY_SECS {
                    metrics.disputes_opened_24h = 0;
                    metrics.dispute_window_start = now;
                }
                metrics.disputes_opened_24h = metrics.disputes_opened_24h.saturating_add(1);
                if metrics.disputes_opened_24h > DISPUTE_HOLD_PER_DAY {
                    result = AnomalyResult::Hold;
                }
            },
            AnomalyAction::LargeTransfer => {
                if now >= metrics.volume_window_start + ONE_HOUR_SECS {
                    metrics.volume_1h = 0;
                    metrics.volume_window_start = now;
                }
                metrics.volume_1h = sat_add_i128(metrics.volume_1h, amount);
                if metrics.volume_1h > VOLUME_HOLD_PER_HOUR {
                    result = AnomalyResult::Hold;
                }
            },
        }
        self.metrics.insert(user, metrics);
        if result == AnomalyResult::Hold {
            self.holds.insert(user, true);
        }
        Ok(result)
    }

    /// Lift the hold on `user` (admin only; the host checks the admin's
    /// authorization).
    pub fn clear_hold(&mut self, user: AccountId) -> (r: Result<(), Error>)
        ensures
            r == (if old(self).admin is Some { Ok(()) } else { Err(Error::NotInitialized) }),
            final(self).holds@ == (if r is Ok {
                old(self).holds@.remove(user)
            } else {
                old(self).holds@
            }),
            final(self).admin == old(self).admin,
            final(self).metrics@ == old(self).metrics@,
    {
        self.assert_initialized()?;
        self.holds.remove(&user);
        Ok(())
    }

    /// True if `user` is currently on hold.
    pub fn is_on_hold(&self, user: AccountId) -> (r: bool)
        ensures
            r == self.on_hold(user),
    {
        match self.holds.get(&user) {
            Some(h) => *h,
            None => false,
        }
    }

    /// The current metrics of `user` as seen at time `now`.
    pub fn get_metrics(&self, user: AccountId, now: u64) -> (m: UserMetrics)
        ensures
            m == self.metrics_of(user, now),
    {
        self.get_or_default_metrics(user, now)
    }
}

/// How a large transfer of `amount` at `now` moves the hourly volume:
/// within the running hour the new volume is the old volume plus `amount`
/// (held at the bounds of `i128`), once the hour has run out a new window
/// starts at `now` with `amount` alone; the account is put on hold exactly
/// when the new volume exceeds the hourly limit.  The other counters stay.
pub proof fn lemma_transfer_volume_accumulates(m: UserMetrics, amount: i128, now: u64)
    ensures
        ({
            let (m2, verdict) = record_action(m, AnomalyAction::LargeTransfer, amount, now);
            let base: int = if now >= m.volume_window_start + ONE_HOUR_SECS {
                0
            } else {
                m.volume_1h as int
            };
            &&& (i128::MIN <= base + amount <= i128::MAX ==> m2.volume_1h == base + amount)
            &&& (base + amount > i128::MAX ==> m2.volume_1h == i128::MAX)
            &&& (base + amount < i128::MIN ==> m2.volume_1h == i128::MIN)
            &&& m2.volume_window_start == (if now >= m.volume_window_start + ONE_HOUR_SECS {
                now
            } else {
                m.volume_window_start
            })
            &&& (verdict == AnomalyResult::Hold <==> m2.volume_1h > 50_000_000_000)
            &&& (verdict != AnomalyResult::Hold ==> verdict == AnomalyResult::Clear)
            &&& m2.escrows_created_1h == m.escrows_created_1h
            &&& m2.escrow_window_start == m.escrow_window_start
            &&& m2.disputes_opened_24h == m.disputes_opened_24h
            &&& m2.dispute_window_start == m.dispute_window_start
        }),
{
}

/// How creating an escrow at `now` moves the hourly escrow count: within the
/// running hour it is the old count plus one, once the hour has run out a
/// new window starts at `now` with a count of one (the count is held at
/// `u32::MAX`); the verdict is a warning exactly when the new count exceeds
/// ten.  The other counters stay.
pub proof fn lemma_escrow_count_accumulates(m: UserMetrics, now: u64)
    ensures
        ({
            let (m2, verdict) = record_action(m, AnomalyAction::CreateEscrow, 0, now);
            let base: int = if now >= m.escrow_window_start + ONE_HOUR_SECS {
                0
            } else {
                m.escrows_created_1h as int
            };
            &&& m2.escrows_created_1h == (if base + 1 > u32::MAX { u32::MAX as int } else { base + 1 })
            &&& m2.escrow_window_start == (if now >= m.escrow_window_start + ONE_HOUR_SECS {
                now
            } else {
                m.escrow_window_start
            })
            &&& (verdict == AnomalyResult::Warning <==> m2.escrows_created_1h > 10)
            &&& (verdict != AnomalyResult::Warning ==> verdict == AnomalyResult::Clear)
            &&& m2.volume_1h == m.volume_1h
            &&& m2.volume_window_start == m.volume_window_start
            &&& m2.disputes_opened_24h == m.disputes_opened_24h
            &&& m2.dispute_window_start == m.dispute_window_start
        }),
{
}

/// How opening a dispute at `now` moves the daily dispute count: within the
/// running day it is the old count plus one, once the day has run out a new
/// window starts at `now` with a count of one (held at `u32::MAX`); the
/// account is put on hold exactly when the new count exceeds three.  The
/// other counters stay.
pub proof fn lemma_dispute_count_accumulates(m: UserMetrics, now: u64)
    ensures
        ({
            let (m2, verdict) = record_action(m, AnomalyAction::OpenDispute, 0, now);
            let base: int = if now >= m.dispute_window_start + ONE_DAY_SECS {
                0
            } else {
                m.disputes_opened_24h as int
            };
            &&& m2.disputes_opened_24h == (if base + 1 > u32::MAX { u32::MAX as int } else { base + 1 })
            &&& m2.dispute_window_start == (if now >= m.dispute_window_start + ONE_DAY_SECS {
                now
            } else {
                m.dispute_window_start
            })
            &&& (verdict == AnomalyResult::Hold <==> m2.disputes_opened_24h > 3)
            &&& (verdict != AnomalyResult::Hold ==> verdict == AnomalyResult::Clear)
            &&& m2.volume_1h == m.volume_1h
            &&& m2.volume_window_start == m.volume_window_start
            &&& m2.escrows_created_1h == m.escrows_created_1h
            &&& m2.escrow_window_start == m.escrow_window_start
        }),
{
}

} // verus!
