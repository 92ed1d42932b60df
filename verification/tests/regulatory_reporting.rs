use mentorminds::regulatory_reporting::{ts_to_year_month, RegulatoryReporting, Rejection};

const ADMIN: u64 = 1;
const ESCROW: u64 = 2;
const SENDER: u64 = 3;
const RECEIVER: u64 = 4;
const USDC: u64 = 5;

fn setup() -> RegulatoryReporting {
    let mut c = RegulatoryReporting::new();
    c.initialize(ADMIN, ESCROW).unwrap();
    c
}

#[test]
fn test_record_and_aggregate() {
    let mut c = setup();
    c.record_transaction(SENDER, RECEIVER, 5_000, USDC, false, 0).unwrap();
    c.record_transaction(SENDER, RECEIVER, 3_000, USDC, false, 0).unwrap();
    let (year, month) = ts_to_year_month(0);
    assert_eq!(c.get_monthly_volume(SENDER, year, month), 8_000);
    assert_eq!(c.get_monthly_volume(RECEIVER, year, month), 8_000);
}

#[test]
fn test_large_transaction_flag() {
    let mut c = setup();
    c.record_transaction(SENDER, RECEIVER, 5_000, USDC, false, 0).unwrap();
    c.record_transaction(SENDER, RECEIVER, 15_000, USDC, false, 0).unwrap();
    let (year, month) = ts_to_year_month(0);
    let large = c.get_large_transactions(SENDER, year, month);
    assert_eq!(large.len(), 1);
    assert_eq!(large[0].amount_usd, 15_000);
    assert!(large[0].large_transaction);
}

#[test]
fn test_cross_border_flag() {
    let mut c = setup();
    c.record_transaction(SENDER, RECEIVER, 2_000, USDC, true, 0).unwrap();
    c.record_transaction(SENDER, RECEIVER, 3_000, USDC, false, 0).unwrap();
    let (year, month) = ts_to_year_month(0);
    assert_eq!(c.get_cross_border_volume(SENDER, year, month), 2_000);
}

#[test]
fn test_get_all_records_admin_only() {
    let mut c = setup();
    c.record_transaction(SENDER, RECEIVER, 1_000, USDC, false, 0).unwrap();
    c.record_transaction(SENDER, RECEIVER, 2_000, USDC, true, 0).unwrap();
    assert_eq!(c.get_all_records(SENDER).unwrap().len(), 2);
}

#[test]
fn reporting_year_month_buckets() {
    assert_eq!(ts_to_year_month(0), (1970, 1));
    // day 29 is still the first 30-day month, day 30 the second
    assert_eq!(ts_to_year_month(29 * 86_400), (1970, 1));
    assert_eq!(ts_to_year_month(30 * 86_400), (1970, 2));
    // days 360..364 fold into month 12 rather than a thirteenth month
    assert_eq!(ts_to_year_month(362 * 86_400), (1970, 12));
    assert_eq!(ts_to_year_month(365 * 86_400), (1971, 1));
}

#[test]
fn reporting_months_are_separate_and_threshold_is_strict() {
    let mut c = setup();
    let rec = c.record_transaction(SENDER, RECEIVER, 10_000, USDC, false, 0).unwrap();
    assert!(!rec.large_transaction);
    c.record_transaction(SENDER, RECEIVER, 10_001, USDC, false, 40 * 86_400).unwrap();
    assert_eq!(c.get_monthly_volume(SENDER, 1970, 1), 10_000);
    assert_eq!(c.get_monthly_volume(SENDER, 1970, 2), 10_001);
    assert_eq!(c.get_large_transactions(SENDER, 1970, 1).len(), 0);
    assert_eq!(c.get_large_transactions(SENDER, 1970, 2).len(), 1);
}

#[test]
fn reporting_self_transfer_is_recorded_twice() {
    let mut c = setup();
    c.record_transaction(SENDER, SENDER, 100, USDC, false, 0).unwrap();
    assert_eq!(c.get_all_records(SENDER).unwrap().len(), 2);
    assert_eq!(c.get_monthly_volume(SENDER, 1970, 1), 200);
}

#[test]
fn reporting_uninitialized() {
    let mut c = RegulatoryReporting::new();
    assert_eq!(c.record_transaction(SENDER, RECEIVER, 1, USDC, false, 0).map(|_| ()), Err(Rejection::NotInitialized));
    assert_eq!(c.get_all_records(SENDER).map(|v| v.len()), Err(Rejection::NotInitialized));
    c.initialize(ADMIN, ESCROW).unwrap();
    assert_eq!(c.initialize(ADMIN, ESCROW), Err(Rejection::AlreadyInitialized));
    assert_eq!(Rejection::NotInitialized.message(), "not initialized");
}
