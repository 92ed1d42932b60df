use mentorminds::session_oracle::{Error, SessionOracleContract, SessionState, EXPIRY_GRACE_SECS};

const ADMIN: u64 = 1;
const MENTOR: u64 = 2;
const LEARNER: u64 = 3;
const SESSION: u64 = 10;

fn setup() -> SessionOracleContract {
    let mut c = SessionOracleContract::new();
    c.initialize(ADMIN).unwrap();
    c.register_session(ADMIN, SESSION, MENTOR, LEARNER, 7, 5_000).unwrap();
    c
}

#[test]
fn dual_confirmation_completes_session() {
    let mut c = setup();
    let first = c.confirm_completion(SESSION, MENTOR, 1_000).unwrap();
    assert_eq!(first.state, SessionState::Pending);
    let second = c.confirm_completion(SESSION, LEARNER, 1_000).unwrap();
    assert_eq!(second.state, SessionState::Completed);
    assert_eq!(second.escrow_id, 7);
    assert_eq!(second.completed_at, 1_000);
}

#[test]
fn oracle_expired_confirmation_changes_nothing() {
    let mut c = setup();
    let late = 5_000 + EXPIRY_GRACE_SECS + 1;
    assert_eq!(c.confirm_completion(SESSION, MENTOR, late), Err(Error::SessionExpired));
    let s = c.get_session(SESSION).unwrap();
    assert_eq!(s.state, SessionState::Pending);
    assert!(!s.mentor_confirmed);
    // the last second of the grace period is still accepted
    assert!(c.confirm_completion(SESSION, MENTOR, late - 1).is_ok());
}

#[test]
fn oracle_dispute_blocks_confirmation() {
    let mut c = setup();
    assert_eq!(c.raise_dispute(SESSION, 99), Err(Error::Unauthorized));
    c.raise_dispute(SESSION, LEARNER).unwrap();
    assert_eq!(c.get_session(SESSION).unwrap().state, SessionState::Disputed);
    assert_eq!(c.confirm_completion(SESSION, MENTOR, 0), Err(Error::SessionDisputed));
}

#[test]
fn oracle_rejections() {
    let mut c = setup();
    assert_eq!(c.confirm_completion(SESSION, 99, 0), Err(Error::Unauthorized));
    assert_eq!(c.confirm_completion(11, MENTOR, 0), Err(Error::SessionNotFound));
    assert_eq!(c.get_session(11), Err(Error::SessionNotFound));
    assert_eq!(c.register_session(ADMIN, SESSION, MENTOR, LEARNER, 8, 1), Err(Error::SessionAlreadyExists));
    assert_eq!(c.register_session(MENTOR, 12, MENTOR, LEARNER, 8, 1), Err(Error::Unauthorized));
    assert_eq!(c.initialize(ADMIN), Err(Error::AlreadyInitialized));
}

#[test]
fn oracle_end_time_near_max_saturates() {
    let mut c = SessionOracleContract::new();
    c.initialize(ADMIN).unwrap();
    c.register_session(ADMIN, SESSION, MENTOR, LEARNER, 7, u64::MAX - 1).unwrap();
    assert!(c.confirm_completion(SESSION, MENTOR, u64::MAX).is_ok());
}
