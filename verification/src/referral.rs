//! Referral rewards: the admin registers who referred whom, a fulfilled
//! referral credits its referrer with a fixed reward, and referrers claim
//! their pending rewards scaled by their leaderboard multiplier.
use std::collections::HashMap;
use vstd::prelude::*;

use crate::arith::{div_i128, trunc_div};
use crate::ids::AccountId;

verus! {

broadcast use vstd::std_specs::hash::group_hash_axioms;

#[derive(Copy, Clone, Debug, PartialEq, Eq, Structural)]
pub enum RefereeType {
    Mentor,
    Learner,
}

#[derive(Copy, Clone, Debug, PartialEq, Eq, Structural)]
pub struct ReferralInfo {
    pub referrer: AccountId,
    pub referee_type: RefereeType,
    pub completed: bool,
}

#[derive(Copy, Clone, Debug, PartialEq, Eq, Structural)]
pub struct ReferralRegisteredEventData {
    pub referee: AccountId,
    pub is_mentor: bool,
}

#[derive(Copy, Clone, Debug, PartialEq, Eq, Structural)]
pub struct RewardClaimedEventData {
    pub amount: i128,
}

/// The leaderboard update that a fulfilled referral asks the host to send:
/// `record_referral(referrer, referral_count)`.
#[derive(Copy, Clone, Debug, PartialEq, Eq, Structural)]
pub struct LeaderboardUpdate {
    pub leaderboard: AccountId,
    pub referrer: AccountId,
    pub referral_count: u32,
}

/// 50 MNT (7 decimals).
pub const REWARD_MENTOR: i128 = 50 * 10_000_000;

/// 20 MNT (7 decimals).
pub const REWARD_LEARNER: i128 = 20 * 10_000_000;

#[derive(Copy, Clone, Debug, PartialEq, Eq, Structural)]
pub enum Rejection {
    AlreadyInitialized,
    NotInitialized,
    SelfReferral,
    AlreadyRegistered,
    ReferralNotFound,
    AlreadyCompleted,
    LeaderboardNotSet,
    NoRewards,
    TokenNotSet,
}

impl Rejection {
    /// The message with which the contract aborts.
    pub fn message(&self) -> (m: &'static str)
        ensures
            m == (match *self {
                Rejection::AlreadyInitialized => "Already initialized",
                Rejection::NotInitialized => "Not initialized",
                Rejection::SelfReferral => "Self-referral not allowed",
                Rejection::AlreadyRegistered => "Referee already registered",
                Rejection::ReferralNotFound => "Referral not found",
                Rejection::AlreadyCompleted => "Already completed",
                Rejection::LeaderboardNotSet => "Leaderboard not set",
                Rejection::NoRewards => "No rewards to claim",
                Rejection::TokenNotSet => "Token not set",
            }),
    {
        match self {
            Rejection::AlreadyInitialized => "Already initialized",
            Rejection::NotInitialized => "Not initialized",
            Rejection::SelfReferral => "Self-referral not allowed",
            Rejection::AlreadyRegistered => "Referee already registered",
            Rejection::ReferralNotFound => "Referral not found",
            Rejection::AlreadyCompleted => "Already completed",
            Rejection::LeaderboardNotSet => "Leaderboard not set",
            Rejection::NoRewards => "No rewards to claim",
            Rejection::TokenNotSet => "Token not set",
        }
    }
}

/// The reward credited for a referee of the given type.
pub open spec fn reward_for(t: RefereeType) -> i128 {
    match t {
        RefereeType::Mentor => REWARD_MENTOR,
        RefereeType::Learner => REWARD_LEARNER,
    }
}

/// The referral contract's stored state.
pub struct ReferralContract {
    pub admin: Option<AccountId>,
    pub mnt_token: Option<AccountId>,
    pub leaderboard_contract: Option<AccountId>,
    /// Referee to referral.
    pub referrals: HashMap<AccountId, ReferralInfo>,
    pub referrer_count: HashMap<AccountId, u32>,
    pub pending_reward: HashMap<AccountId, i128>,
}

impl ReferralContract {
    pub open spec fn count_of(&self, referrer: AccountId) -> u32 {
        if self.referrer_count@.contains_key(referrer) {
            self.referrer_count@[referrer]
        } else {
            0
        }
    }

    pub open spec fn pending_of(&self, referrer: AccountId) -> i128 {
        if self.pending_reward@.contains_key(referrer) {
            self.pending_reward@[referrer]
        } else {
            0
        }
    }

    /// Only the three maps may differ between `self` and `other`.
    pub open spec fn same_config(&self, other: &Self) -> bool {
        &&& self.admin == other.admin
        &&& self.mnt_token == other.mnt_token
        &&& self.leaderboard_contract == other.leaderboard_contract
    }

    /// A contract that has not been initialized.
    pub fn new() -> (s: Self)
        ensures
            s.admin is None,
            s.mnt_token is None,
            s.leaderboard_contract is None,
            s.referrals@ == Map::<AccountId, ReferralInfo>::empty(),
            s.referrer_count@ == Map::<AccountId, u32>::empty(),
            s.pending_reward@ == Map::<AccountId, i128>::empty(),
    {
        ReferralContract {
            admin: None,
            mnt_token: None,
            leaderboard_contract: None,
            referrals: HashMap::new(),
            referrer_count: HashMap::new(),
            pending_reward: HashMap::new(),
        }
    }

    /// Initialize with the admin, the MNT token and the leaderboard.
    pub fn initialize(&mut self, admin: AccountId, mnt_token: AccountId, leaderboard: AccountId) -> (r:
        Result<(), Rejection>)
        ensures
            r == (if old(self).admin is Some {
                Err(Rejection::AlreadyInitialized)
            } else {
                Ok(())
            }),
            r is Err ==> final(self).same_config(old(self)),
            r is Ok ==> final(self).admin == Some(admin) && final(self).mnt_token == Some(mnt_token)
                && final(self).leaderboard_contract == Some(leaderboard),
            final(self).referrals@ == old(self).referrals@,
            final(self).referrer_count@ == old(self).referrer_count@,
            final(self).pending_reward@ == old(self).pending_reward@,
    {
        if self.admin.is_some() {
            return Err(Rejection::AlreadyInitialized);
        }
        self.admin = Some(admin);
        self.mnt_token = Some(mnt_token);
        self.leaderboard_contract = Some(leaderboard);
        Ok(())
    }

    fn read_count(&self, referrer: AccountId) -> (c: u32)
        ensures
            c == self.count_of(referrer),
    {
        match self.referrer_count.get(&referrer) {
            Some(c) => *c,
            None => 0,
        }
    }

    fn read_pending(&self, referrer: AccountId) -> (p: i128)
        ensures
            p == self.pending_of(referrer),
    {
        match self.pending_reward.get(&referrer) {
            Some(p) => *p,
            None => 0,
        }
    }

    /// Record that `referrer` referred `referee` (admin only; the host
    /// checks the admin's authorization).  Returns the registration event.
    pub fn register_referral(&mut self, referrer: AccountId, referee: AccountId, is_mentor: bool) -> (r:
        Result<ReferralRegisteredEventData, Rejection>)
        requires
            old(self).admin is Some && referrer != referee && !old(self).referrals@.contains_key(
                referee,
            ) ==> old(self).count_of(referrer) < u32::MAX,
        ensures
            r == (if old(self).admin is None {
                Err(Rejection::NotInitialized)
            } else if referrer == referee {
                Err(Rejection::SelfReferral)
            } else if old(self).referrals@.contains_key(referee) {
                Err(Rejection::AlreadyRegistered)
            } else {
                Ok(ReferralRegisteredEventData { referee, is_mentor })
            }),
            r is Err ==> final(self).referrals@ == old(self).referrals@ && final(self).referrer_count@
                == old(self).referrer_count@,
            r is Ok ==> final(self).referrals@ == old(self).referrals@.insert(
                referee,
                ReferralInfo {
                    referrer,
                    referee_type: if is_mentor {
                        RefereeType::Mentor
                    } else {
                        RefereeType::Learner
                    },
                    completed: false,
                },
            ) && final(self).referrer_count@ == old(self).referrer_count@.insert(
                referrer,
                (old(self).count_of(referrer) + 1) as u32,
            ),
            final(self).pending_reward@ == old(self).pending_reward@,
            final(self).same_config(old(self)),
    {
        if self.admin.is_none() {
            return Err(Rejection::NotInitialized);
        }
        if referrer == referee {
            return Err(Rejection::SelfReferral);
        }
        if self.referrals.contains_key(&referee) {
            return Err(Rejection::AlreadyRegistered);
        }
        let referee_type = if is_mentor {
            RefereeType::Mentor
        } else {
            RefereeType::Learner
        };
        let info = ReferralInfo { referrer, referee_type, completed: false };
        self.referrals.insert(referee, info);
        let count = self.read_count(referrer);
        self.referrer_count.insert(referrer, count + 1);
        Ok(ReferralRegisteredEventData { referee, is_mentor })
    }

    /// Mark `referee`'s referral fulfilled and credit its referrer (admin
    /// only).  Returns the leaderboard update the host must send.
    pub fn fulfill_referral(&mut self, referee: AccountId) -> (r: Result<
        LeaderboardUpdate,
        Rejection,
    >)
        requires
            old(self).referrals@.contains_key(referee) ==> old(self).pending_of(
                old(self).referrals@[referee].referrer,
            ) + reward_for(old(self).referrals@[referee].referee_type) <= i128::MAX,
        ensures
            r == (if old(self).admin is None {
                Err(Rejection::NotInitialized)
            } else if !old(self).referrals@.contains_key(referee) {
                Err(Rejection::ReferralNotFound)
            } else if old(self).referrals@[referee].completed {
                Err(Rejection::AlreadyCompleted)
            } else if old(self).leaderboard_contract is None {
                Err(Rejection::LeaderboardNotSet)
            } else {
                let info = old(self).referrals@[referee];
                Ok(
                    LeaderboardUpdate {
                        leaderboard: old(self).leaderboard_contract->Some_0,
                        referrer: info.referrer,
                        referral_count: old(self).count_of(info.referrer),
                    },
                )
            }),
            r is Err ==> final(self).referrals@ == old(self).referrals@ && final(self).pending_reward@
                == old(self).pending_reward@,
            r is Ok ==> {
                let info = old(self).referrals@[referee];
                &&& final(self).referrals@ == old(self).referrals@.insert(
                    referee,
                    ReferralInfo { completed: true, ..info },
                )
                &&& final(self).pending_reward@ == old(self).pending_reward@.insert(
                    info.referrer,
                    (old(self).pending_of(info.referrer) + reward_for(info.referee_type)) as i128,
                )
            },
            final(self).referrer_count@ == old(self).referrer_count@,
            final(self).same_config(old(self)),
    {
        if self.admin.is_none() {
            return Err(Rejection::NotInitialized);
        }
        let info = match self.referrals.get(&referee) {
            Some(i) => *i,
            None => return Err(Rejection::ReferralNotFound),
        };
        if info.completed {
            return Err(Rejection::AlreadyCompleted);
        }
        let leaderboard = match self.leaderboard_contract {
            Some(l) => l,
            None => return Err(Rejection::LeaderboardNotSet),
        };
        let completed = ReferralInfo { completed: true, ..info };
        self.referrals.insert(referee, completed);
        let reward = match info.referee_type {
            RefereeType::Mentor => REWARD_MENTOR,
            RefereeType::Learner => REWARD_LEARNER,
        };
        let pending = self.read_pending(info.referrer);
        self.pending_reward.insert(info.referrer, pending + reward);
        let count = self.read_count(info.referrer);
        Ok(LeaderboardUpdate { leaderboard, referrer: info.referrer, referral_count: count })
    }

    /// The checks made before the leaderboard is asked for `referrer`'s
    /// multiplier; on success, the leaderboard to ask.
    pub fn prepare_claim(&self, referrer: AccountId) -> (r: Result<AccountId, Rejection>)
        ensures
            r == (if self.pending_of(referrer) <= 0 {
                Err(Rejection::NoRewards)
            } else if self.leaderboard_contract is None {
                Err(Rejection::LeaderboardNotSet)
            } else {
                Ok(self.leaderboard_contract->Some_0)
            }),
    {
        let pending = self.read_pending(referrer);
        if pending <= 0 {
            return Err(Rejection::NoRewards);
        }
        match self.leaderboard_contract {
            Some(l) => Ok(l),
            None => Err(Rejection::LeaderboardNotSet),
        }
    }

    /// Pay out `referrer`'s pending rewards scaled by `multiplier` (in basis
    /// points, as the leaderboard reports it); the host mints the amount in
    /// the returned event to the referrer.
    pub fn claim_reward(&mut self, referrer: AccountId, multiplier: u32) -> (r: Result<
        RewardClaimedEventData,
        Rejection,
    >)
        requires
            old(self).pending_of(referrer) > 0 ==> old(self).pending_of(referrer) * multiplier
                <= i128::MAX,
        ensures
            r == (if old(self).pending_of(referrer) <= 0 {
                Err(Rejection::NoRewards)
            } else if old(self).leaderboard_contract is None {
                Err(Rejection::LeaderboardNotSet)
            } else if old(self).mnt_token is None {
                Err(Rejection::TokenNotSet)
            } else {
                Ok(
                    RewardClaimedEventData {
                        amount: trunc_div(old(self).pending_of(referrer) * multiplier, 10_000) as i128,
                    },
                )
            }),
            final(self).pending_reward@ == (if r is Ok {
                old(self).pending_reward@.insert(referrer, 0)
            } else {
                old(self).pending_reward@
            }),
            final(self).referrals@ == old(self).referrals@,
            final(self).referrer_count@ == old(self).referrer_count@,
            final(self).same_config(old(self)),
    {
        self.prepare_claim(referrer)?;
        let pending = self.read_pending(referrer);
        let actual_amount = div_i128(pending * (multiplier as i128), 10_000);
        if self.mnt_token.is_none() {
            return Err(Rejection::TokenNotSet);
        }
        self.pending_reward.insert(referrer, 0);
        Ok(RewardClaimedEventData { amount: actual_amount })
    }

    pub fn get_referral_count(&self, referrer: AccountId) -> (r: u32)
        ensures
            r == self.count_of(referrer),
    {
        self.read_count(referrer)
    }

    pub fn get_pending_rewards(&self, referrer: AccountId) -> (r: i128)
        ensures
            r == self.pending_of(referrer),
    {
        self.read_pending(referrer)
    }

    pub fn get_admin(&self) -> (r: Result<AccountId, Rejection>)
        ensures
            r == (match self.admin {
                Some(a) => Ok(a),
                None => Err(Rejection::NotInitialized),
            }),
    {
        match self.admin {
            Some(a) => Ok(a),
            None => Err(Rejection::NotInitialized),
        }
    }
}

} // verus!
