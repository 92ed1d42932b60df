use proptest::strategy::{Just, Strategy, Union};
use proptest::test_runner::{Config, TestRunner};

use mentorminds::escrow_math::{calc_fee, calc_release_after, calc_split};

fn runner() -> TestRunner {
    TestRunner::new(Config::with_cases(10_000))
}

#[test]
fn fuzz_fee_bps() {
    runner()
        .run(&(0u32..=10_000u32, 1i128..=i128::MAX), |(fee_bps, amount)| {
            if let Some((fee, net)) = calc_fee(amount, fee_bps) {
                assert!(fee >= 0);
                assert!(fee <= amount);
                assert!(net >= 0);
                assert_eq!(fee.checked_add(net), Some(amount));
            }
            Ok(())
        })
        .unwrap();
}

#[test]
fn fuzz_amount_extremes() {
    let amounts = Union::new(vec![
        Just(1i128).boxed(),
        Just(i128::MAX).boxed(),
        Just(10_000i128).boxed(),
        Just(1_000_000i128).boxed(),
        (1i128..=i128::MAX).boxed(),
    ]);
    runner()
        .run(&(0u32..=1_000u32, amounts), |(fee_bps, amount)| {
            if let Some((fee, net)) = calc_fee(amount, fee_bps) {
                assert!(fee >= 0);
                assert!(net >= 0);
                assert!(fee <= amount);
                assert_eq!(fee.checked_add(net), Some(amount));
                if fee_bps == 0 {
                    assert_eq!(fee, 0);
                    assert_eq!(net, amount);
                }
                if amount == 1 {
                    assert_eq!(fee, 0);
                    assert_eq!(net, 1);
                }
            }
            Ok(())
        })
        .unwrap();
}

#[test]
fn fuzz_resolve_dispute() {
    runner()
        .run(&(0u32..=100u32, 1i128..=i128::MAX), |(mentor_pct, amount)| {
            if let Some((mentor, learner)) = calc_split(amount, mentor_pct) {
                assert!(mentor >= 0);
                assert!(learner >= 0);
                assert_eq!(mentor.checked_add(learner), Some(amount));
                if mentor_pct == 100 {
                    assert_eq!(mentor, amount);
                    assert_eq!(learner, 0);
                }
                if mentor_pct == 0 {
                    assert_eq!(mentor, 0);
                    assert_eq!(learner, amount);
                }
            }
            Ok(())
        })
        .unwrap();
}

#[test]
fn fuzz_auto_release_delay() {
    runner()
        .run(&(0u64..=u64::MAX, 0u64..=u64::MAX), |(end, delay)| {
            match calc_release_after(end, delay) {
                Some(release_after) => assert_eq!(release_after as u128, end as u128 + delay as u128),
                None => assert!(end.checked_add(delay).is_none()),
            }
            Ok(())
        })
        .unwrap();
}

#[test]
fn escrow_math_exact_values() {
    assert_eq!(calc_fee(1_000, 250), Some((25, 975)));
    assert_eq!(calc_fee(-1_000, 250), Some((-25, -975)));
    assert_eq!(calc_fee(i128::MAX, 2), None);
    assert_eq!(calc_fee(i128::MAX, 1), Some((i128::MAX / 10_000, i128::MAX - i128::MAX / 10_000)));
    assert_eq!(calc_split(1_001, 50), Some((500, 501)));
    assert_eq!(calc_split(i128::MAX, 2), None);
    assert_eq!(calc_release_after(u64::MAX, 1), None);
    assert_eq!(calc_release_after(100, 50), Some(150));
}
