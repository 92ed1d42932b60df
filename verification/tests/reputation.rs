use std::collections::HashSet;

use mentorminds::reputation::{EscrowInfo, EscrowStatus, Rejection, ReputationContract};

const ESCROW_CONTRACT: u64 = 1;
const MENTOR: u64 = 2;
const LEARNER: u64 = 3;
const NOW: u64 = 1_000_000;

fn or_panic<T>(r: Result<T, Rejection>) -> T {
    match r {
        Ok(v) => v,
        Err(e) => panic!("{}", e.message()),
    }
}

/// The reputation contract and the escrow contract it asks, as the host
/// runs them.
struct Host {
    rep: ReputationContract,
    released: HashSet<u64>,
}

impl Host {
    fn setup() -> Self {
        let mut rep = ReputationContract::new();
        or_panic(rep.initialize(ESCROW_CONTRACT));
        Host { rep, released: HashSet::new() }
    }

    fn escrow_for(&self, session_id: u64) -> EscrowInfo {
        EscrowInfo {
            id: 1,
            mentor: 9,
            learner: 9,
            amount: 100,
            session_id,
            status: if self.released.contains(&session_id) {
                EscrowStatus::Released
            } else {
                EscrowStatus::Active
            },
            created_at: 0,
            token_address: 9,
            platform_fee: 0,
            net_amount: 100,
            session_end_time: 0,
            auto_release_delay: 0,
            dispute_reason: 0,
            resolved_at: 0,
            usd_amount: 0,
            quoted_token_amount: 0,
            send_asset: 9,
            dest_asset: 9,
            total_sessions: 1,
            sessions_completed: 1,
        }
    }

    fn submit_review(&mut self, session_id: u64, rating: u32, comment: [u8; 32]) {
        let source = or_panic(self.rep.prepare_review(session_id, rating));
        assert_eq!(source, ESCROW_CONTRACT);
        let escrow = self.escrow_for(session_id);
        or_panic(self.rep.submit_review(session_id, MENTOR, LEARNER, rating, comment, &escrow, NOW));
    }
}

#[test]
fn test_submit_review_success() {
    let mut h = Host::setup();
    let session = 100;
    h.released.insert(session);
    h.submit_review(session, 5, [1u8; 32]);
    let (avg, count) = h.rep.get_mentor_rating(MENTOR);
    assert_eq!(count, 1);
    assert_eq!(avg, 500);
    let review = or_panic(h.rep.get_review(session));
    assert_eq!(review.rating, 5);
    assert_eq!(review.mentor, MENTOR);
    assert_eq!(review.learner, LEARNER);
}

#[test]
fn test_running_average() {
    let mut h = Host::setup();
    for i in 1u32..=3 {
        let sid = 200 + i as u64;
        h.released.insert(sid);
        h.submit_review(sid, (i * 2).min(5), [0u8; 32]);
    }
    let (avg, count) = h.rep.get_mentor_rating(MENTOR);
    assert_eq!(count, 3);
    assert_eq!(avg, 366);
}

#[test]
#[should_panic(expected = "InvalidRating")]
fn test_invalid_rating() {
    let mut h = Host::setup();
    h.released.insert(300);
    h.submit_review(300, 6, [0u8; 32]);
}

#[test]
#[should_panic(expected = "SessionNotReleased")]
fn test_session_not_released() {
    let mut h = Host::setup();
    h.submit_review(301, 4, [0u8; 32]);
}

#[test]
#[should_panic(expected = "DuplicateReview")]
fn test_duplicate_review() {
    let mut h = Host::setup();
    h.released.insert(302);
    h.submit_review(302, 3, [0u8; 32]);
    h.submit_review(302, 4, [0u8; 32]);
}

#[test]
fn reputation_average_stays_between_one_and_five() {
    let mut h = Host::setup();
    for (k, rating) in [1u32, 1, 2].iter().enumerate() {
        let sid = 400 + k as u64;
        h.released.insert(sid);
        h.submit_review(sid, *rating, [0u8; 32]);
    }
    let (avg, count) = h.rep.get_mentor_rating(MENTOR);
    assert_eq!(count, 3);
    assert_eq!(avg, 133);
    assert!(avg >= 100 && avg <= 500);
    assert_eq!(h.rep.get_mentor_rating(77), (0, 0));
}

#[test]
fn reputation_rejections() {
    let mut rep = ReputationContract::new();
    assert_eq!(rep.prepare_review(1, 3), Err(Rejection::EscrowContractNotSet));
    assert_eq!(rep.prepare_review(1, 0), Err(Rejection::InvalidRating));
    assert_eq!(rep.get_review(1).map(|r| r.rating), Err(Rejection::ReviewNotFound));
    or_panic(rep.initialize(ESCROW_CONTRACT));
    assert_eq!(rep.initialize(ESCROW_CONTRACT), Err(Rejection::AlreadyInitialized));
}
