use mentorminds::certificates::{Certificates, Rejection};

const ADMIN: u64 = 1;
const BACKEND: u64 = 2;
const LEARNER: u64 = 3;
const MENTOR: u64 = 4;
const RUST: u64 = 100;
const GO: u64 = 101;

fn or_panic<T>(r: Result<T, Rejection>) -> T {
    match r {
        Ok(v) => v,
        Err(e) => panic!("{}", e.message()),
    }
}

fn deploy() -> Certificates {
    let mut c = Certificates::new();
    or_panic(c.initialize(ADMIN, BACKEND));
    c
}

#[test]
fn test_issue_and_verify() {
    let mut c = deploy();
    let id = or_panic(c.issue_certificate(LEARNER, MENTOR, RUST, 5, 1000));
    assert_eq!(id, 1);
    let (valid, record) = or_panic(c.verify_certificate(id));
    assert!(valid);
    assert_eq!(record.learner, LEARNER);
    assert_eq!(record.skill, RUST);
    assert_eq!(record.sessions_completed, 5);
    assert!(!record.revoked);
}

#[test]
fn test_revoke() {
    let mut c = deploy();
    let id = or_panic(c.issue_certificate(LEARNER, MENTOR, RUST, 3, 500));
    or_panic(c.revoke_certificate(id));
    let (valid, record) = or_panic(c.verify_certificate(id));
    assert!(!valid);
    assert!(record.revoked);
}

#[test]
#[should_panic(expected = "non-transferable")]
fn test_transfer_panics() {
    let mut c = deploy();
    let id = or_panic(c.issue_certificate(LEARNER, MENTOR, RUST, 1, 0));
    let other = 55;
    or_panic(c.transfer(other, id));
}

#[test]
fn test_get_certificates_by_learner() {
    let mut c = deploy();
    or_panic(c.issue_certificate(LEARNER, MENTOR, RUST, 2, 100));
    or_panic(c.issue_certificate(LEARNER, MENTOR, RUST, 4, 200));
    assert_eq!(c.get_certificates_by_learner(LEARNER).len(), 2);
}

#[test]
fn test_get_certificates_by_skill() {
    let mut c = deploy();
    let learner2 = 33;
    or_panic(c.issue_certificate(LEARNER, MENTOR, RUST, 3, 100));
    or_panic(c.issue_certificate(learner2, MENTOR, RUST, 5, 200));
    or_panic(c.issue_certificate(LEARNER, MENTOR, GO, 2, 300));
    assert_eq!(c.get_certificates_by_skill(RUST).len(), 2);
    assert_eq!(c.get_certificates_by_skill(GO).len(), 1);
}

#[test]
fn certificates_ids_increase_and_errors() {
    let mut c = Certificates::new();
    assert_eq!(c.issue_certificate(LEARNER, MENTOR, RUST, 1, 0), Err(Rejection::NotInitialized));
    assert_eq!(c.revoke_certificate(1), Err(Rejection::NotInitialized));
    or_panic(c.initialize(ADMIN, BACKEND));
    assert_eq!(c.initialize(ADMIN, BACKEND), Err(Rejection::AlreadyInitialized));
    assert_eq!(c.issue_certificate(LEARNER, MENTOR, RUST, 1, 0), Ok(1));
    assert_eq!(c.issue_certificate(LEARNER, MENTOR, GO, 1, 0), Ok(2));
    assert_eq!(c.revoke_certificate(9), Err(Rejection::CertNotFound));
    assert_eq!(c.verify_certificate(9).map(|v| v.0), Err(Rejection::CertNotFound));
    let by_learner: Vec<u64> = c.get_certificates_by_learner(LEARNER).iter().map(|r| r.id).collect();
    assert_eq!(by_learner, vec![1, 2]);
    assert_eq!(c.transfer(MENTOR, 1), Err(Rejection::NonTransferable));
}
