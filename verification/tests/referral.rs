use std::collections::HashMap;

use mentorminds::referral::{
    ReferralContract, ReferralRegisteredEventData, Rejection, RewardClaimedEventData, REWARD_LEARNER,
    REWARD_MENTOR,
};
use mentorminds::referral_leaderboard::ReferralLeaderboardContract;

const ADMIN: u64 = 1;
const MNT: u64 = 2;
const LEADERBOARD: u64 = 3;
const REFERRAL_CONTRACT: u64 = 4;

fn or_panic<T>(r: Result<T, Rejection>) -> T {
    match r {
        Ok(v) => v,
        Err(e) => panic!("{}", e.message()),
    }
}

/// The referral contract, the leaderboard it reports to and the token it
/// mints, as the host runs them together.
struct Host {
    referral: ReferralContract,
    leaderboard: ReferralLeaderboardContract,
    minted: HashMap<u64, i128>,
}

impl Host {
    fn setup() -> Self {
        let mut leaderboard = ReferralLeaderboardContract::new();
        leaderboard.initialize(REFERRAL_CONTRACT).unwrap();
        let mut referral = ReferralContract::new();
        or_panic(referral.initialize(ADMIN, MNT, LEADERBOARD));
        Host { referral, leaderboard, minted: HashMap::new() }
    }

    fn fulfill(&mut self, referee: u64) {
        let update = or_panic(self.referral.fulfill_referral(referee));
        assert_eq!(update.leaderboard, LEADERBOARD);
        self.leaderboard
            .record_referral(REFERRAL_CONTRACT, update.referrer, update.referral_count)
            .unwrap();
    }

    fn claim(&mut self, referrer: u64) -> RewardClaimedEventData {
        or_panic(self.referral.prepare_claim(referrer));
        let multiplier = self.leaderboard.get_multiplier(referrer);
        let event = or_panic(self.referral.claim_reward(referrer, multiplier));
        *self.minted.entry(referrer).or_insert(0) += event.amount;
        event
    }
}

#[test]
fn test_initialization() {
    let h = Host::setup();
    assert_eq!(h.referral.get_referral_count(42), 0);
}

#[test]
fn test_referral_flow() {
    let mut h = Host::setup();
    let referrer = 10;
    let referee = 11;
    let event = or_panic(h.referral.register_referral(referrer, referee, true));
    assert_eq!(h.referral.get_referral_count(referrer), 1);
    assert_eq!(h.referral.get_pending_rewards(referrer), 0);
    assert_eq!(event, ReferralRegisteredEventData { referee, is_mentor: true });

    h.fulfill(referee);
    assert_eq!(h.referral.get_pending_rewards(referrer), REWARD_MENTOR);

    let claimed = h.claim(referrer);
    assert_eq!(h.referral.get_pending_rewards(referrer), 0);
    assert_eq!(*h.minted.get(&referrer).unwrap(), REWARD_MENTOR * 2);
    assert_eq!(claimed, RewardClaimedEventData { amount: REWARD_MENTOR * 2 });
}

#[test]
#[should_panic(expected = "Self-referral not allowed")]
fn test_self_referral_rejection() {
    let mut h = Host::setup();
    or_panic(h.referral.register_referral(5, 5, true));
}

#[test]
#[should_panic(expected = "Referee already registered")]
fn test_duplicate_referral_rejection() {
    let mut h = Host::setup();
    or_panic(h.referral.register_referral(20, 22, true));
    or_panic(h.referral.register_referral(21, 22, false));
}

#[test]
fn referral_learner_reward_and_rejections() {
    let mut h = Host::setup();
    or_panic(h.referral.register_referral(30, 31, false));
    assert_eq!(h.referral.claim_reward(30, 10_000), Err(Rejection::NoRewards));
    h.fulfill(31);
    assert_eq!(h.referral.get_pending_rewards(30), REWARD_LEARNER);
    assert_eq!(h.referral.fulfill_referral(31).map(|_| ()), Err(Rejection::AlreadyCompleted));
    assert_eq!(h.referral.fulfill_referral(99).map(|_| ()), Err(Rejection::ReferralNotFound));
    // rank 1 of 1: 2x
    assert_eq!(h.claim(30).amount, REWARD_LEARNER * 2);
}

#[test]
fn referral_uninitialized() {
    let mut r = ReferralContract::new();
    assert_eq!(r.register_referral(1, 2, true).map(|_| ()), Err(Rejection::NotInitialized));
    assert_eq!(r.get_admin(), Err(Rejection::NotInitialized));
    or_panic(r.initialize(ADMIN, MNT, LEADERBOARD));
    assert_eq!(r.get_admin(), Ok(ADMIN));
    assert_eq!(r.initialize(ADMIN, MNT, LEADERBOARD), Err(Rejection::AlreadyInitialized));
}
