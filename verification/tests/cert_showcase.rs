use mentorminds::cert_showcase::{generate_verification_url_hash, CertShowcase, Rejection};

const ADMIN: u64 = 1;
const CERTS: u64 = 2;
const LEARNER: u64 = 3;

fn or_panic<T>(r: Result<T, Rejection>) -> T {
    match r {
        Ok(v) => v,
        Err(e) => panic!("{}", e.message()),
    }
}

fn setup() -> CertShowcase {
    let mut s = CertShowcase::new();
    or_panic(s.initialize(ADMIN, CERTS));
    s
}

#[test]
fn test_showcase() {
    let mut s = setup();
    or_panic(s.showcase(LEARNER, 1));
    let showcase = s.get_showcase(LEARNER);
    assert_eq!(showcase.len(), 1);
    assert_eq!(showcase[0], 1);
}

#[test]
fn test_hide() {
    let mut s = setup();
    or_panic(s.showcase(LEARNER, 1));
    or_panic(s.showcase(LEARNER, 2));
    or_panic(s.hide_certificate(LEARNER, 1));
    let showcase = s.get_showcase(LEARNER);
    assert_eq!(showcase.len(), 1);
    assert_eq!(showcase[0], 2);
}

#[test]
fn test_verify_showcase_cert() {
    let mut s = setup();
    or_panic(s.showcase(LEARNER, 1));
    assert!(s.verify_showcase_cert(LEARNER, 1));
    assert!(!s.verify_showcase_cert(LEARNER, 2));
}

#[test]
fn test_featured_learners() {
    let mut s = setup();
    or_panic(s.update_featured_learners(vec![10, 11, 12]));
    assert_eq!(s.get_featured_learners().len(), 3);
}

#[test]
fn showcase_hiding_the_last_certificate_empties_it() {
    let mut s = setup();
    or_panic(s.showcase(LEARNER, 1));
    or_panic(s.showcase(LEARNER, 2));
    assert_eq!(s.get_showcase(LEARNER), vec![1, 2]);
    or_panic(s.hide_certificate(LEARNER, 1));
    or_panic(s.hide_certificate(LEARNER, 2));
    assert!(s.get_showcase(LEARNER).is_empty());
    assert!(!s.verify_showcase_cert(99, 5));
}

#[test]
fn showcase_featured_limit() {
    let mut s = setup();
    let learners: Vec<u64> = (10..20).collect();
    assert_eq!(s.update_featured_learners(learners.clone()), Ok(10));
    assert_eq!(s.get_featured_learners(), learners);
    let too_many: Vec<u64> = (10..21).collect();
    assert_eq!(s.update_featured_learners(too_many), Err(Rejection::TooManyFeatured));
    assert_eq!(s.get_featured_learners(), learners);
}

#[test]
#[should_panic(expected = "certificate already showcased")]
fn test_duplicate_showcase() {
    let mut s = setup();
    or_panic(s.showcase(LEARNER, 1));
    or_panic(s.showcase(LEARNER, 1));
}

#[test]
fn showcase_hide_missing_and_uninitialized() {
    let mut s = setup();
    assert_eq!(s.hide_certificate(LEARNER, 4), Err(Rejection::NotInShowcase));
    assert_eq!(Rejection::NotInShowcase.message(), "certificate not found in showcase");
    let mut fresh = CertShowcase::new();
    assert_eq!(fresh.update_featured_learners(vec![1]), Err(Rejection::NotInitialized));
    assert_eq!(s.initialize(ADMIN, CERTS), Err(Rejection::AlreadyInitialized));
}

#[test]
fn showcase_verification_hash_layout() {
    let h = generate_verification_url_hash(0x0102_0304_0506_0708);
    let mut expected = [0u8; 32];
    expected[0..8].copy_from_slice(&0x0102_0304_0506_0708u64.to_le_bytes());
    assert_eq!(h, expected);
    assert_eq!(h[0], 8);
    assert_eq!(h[7], 1);
    assert_eq!(generate_verification_url_hash(0), [0u8; 32]);
}
