use mentorminds::anomaly_detector::{
    AnomalyAction, AnomalyDetectorContract, AnomalyResult, Error, ONE_HOUR_SECS,
    VOLUME_HOLD_PER_HOUR,
};

const ADMIN: u64 = 1;
const USER: u64 = 2;

fn setup() -> AnomalyDetectorContract {
    let mut c = AnomalyDetectorContract::new();
    c.initialize(ADMIN).unwrap();
    c
}

fn check(c: &mut AnomalyDetectorContract, action: AnomalyAction, amount: i128, now: u64) -> AnomalyResult {
    c.check_anomaly(USER, action, amount, now).unwrap()
}

#[test]
fn test_normal_activity_is_clear() {
    let mut c = setup();
    assert_eq!(check(&mut c, AnomalyAction::CreateEscrow, 0, 0), AnomalyResult::Clear);
    assert!(!c.is_on_hold(USER));
}

#[test]
fn test_escrow_threshold_warning() {
    let mut c = setup();
    for _ in 0..10 {
        check(&mut c, AnomalyAction::CreateEscrow, 0, 0);
    }
    assert_eq!(check(&mut c, AnomalyAction::CreateEscrow, 0, 0), AnomalyResult::Warning);
    assert!(!c.is_on_hold(USER));
}

#[test]
fn test_dispute_threshold_hold() {
    let mut c = setup();
    for _ in 0..3 {
        check(&mut c, AnomalyAction::OpenDispute, 0, 0);
    }
    assert_eq!(check(&mut c, AnomalyAction::OpenDispute, 0, 0), AnomalyResult::Hold);
    assert!(c.is_on_hold(USER));
}

#[test]
fn test_volume_threshold_hold() {
    let mut c = setup();
    let r = check(&mut c, AnomalyAction::LargeTransfer, VOLUME_HOLD_PER_HOUR + 1, 0);
    assert_eq!(r, AnomalyResult::Hold);
    assert!(c.is_on_hold(USER));
}

#[test]
fn test_hold_blocks_subsequent_actions() {
    let mut c = setup();
    for _ in 0..4 {
        check(&mut c, AnomalyAction::OpenDispute, 0, 0);
    }
    assert!(c.is_on_hold(USER));
    assert_eq!(check(&mut c, AnomalyAction::CreateEscrow, 0, 0), AnomalyResult::Hold);
}

#[test]
fn test_admin_clear_hold() {
    let mut c = setup();
    check(&mut c, AnomalyAction::LargeTransfer, VOLUME_HOLD_PER_HOUR + 1, 0);
    assert!(c.is_on_hold(USER));
    c.clear_hold(USER).unwrap();
    assert!(!c.is_on_hold(USER));
    assert_eq!(check(&mut c, AnomalyAction::CreateEscrow, 0, 0), AnomalyResult::Clear);
}

#[test]
fn test_window_reset_after_expiry() {
    let mut c = setup();
    for _ in 0..11 {
        check(&mut c, AnomalyAction::CreateEscrow, 0, 0);
    }
    let r = check(&mut c, AnomalyAction::CreateEscrow, 0, ONE_HOUR_SECS + 1);
    assert_eq!(r, AnomalyResult::Clear);
}

#[test]
fn test_events_emitted() {
    let mut c = setup();
    let r = check(&mut c, AnomalyAction::LargeTransfer, VOLUME_HOLD_PER_HOUR + 1, 0);
    assert_eq!(r, AnomalyResult::Hold);
}

#[test]
fn anomaly_requires_initialization() {
    let mut c = AnomalyDetectorContract::new();
    assert_eq!(c.check_anomaly(USER, AnomalyAction::CreateEscrow, 0, 0), Err(Error::NotInitialized));
    assert_eq!(c.clear_hold(USER), Err(Error::NotInitialized));
    c.initialize(ADMIN).unwrap();
    assert_eq!(c.initialize(ADMIN), Err(Error::AlreadyInitialized));
}

#[test]
fn anomaly_volume_at_threshold_is_clear() {
    let mut c = setup();
    let r = check(&mut c, AnomalyAction::LargeTransfer, VOLUME_HOLD_PER_HOUR, 0);
    assert_eq!(r, AnomalyResult::Clear);
    let m = c.get_metrics(USER, 0);
    assert_eq!(m.volume_1h, VOLUME_HOLD_PER_HOUR);
}

#[test]
fn anomaly_metrics_count_escrows() {
    let mut c = setup();
    check(&mut c, AnomalyAction::CreateEscrow, 0, 5);
    check(&mut c, AnomalyAction::CreateEscrow, 0, 6);
    let m = c.get_metrics(USER, 7);
    assert_eq!(m.escrows_created_1h, 2);
    assert_eq!(m.escrow_window_start, 5);
}
