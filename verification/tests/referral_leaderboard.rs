use mentorminds::referral_leaderboard::{ReferralLeaderboardContract, Rejection};

const REFERRAL_CONTRACT: u64 = 1;

fn setup() -> ReferralLeaderboardContract {
    let mut b = ReferralLeaderboardContract::new();
    b.initialize(REFERRAL_CONTRACT).unwrap();
    b
}

fn record(b: &mut ReferralLeaderboardContract, referrer: u64, count: u32) -> Vec<u64> {
    b.record_referral(REFERRAL_CONTRACT, referrer, count).unwrap().top_three
}

#[test]
fn lib_test_initialization() {
    let b = setup();
    assert!(b.get_leaderboard().is_empty());
}

#[test]
fn test_record_referral_empty_board() {
    let mut b = setup();
    let referrer = 100;
    record(&mut b, referrer, 1);
    let board = b.get_leaderboard();
    assert_eq!(board.len(), 1);
    assert_eq!(board[0], (referrer, 1));
    assert_eq!(b.get_rank(referrer), Some(1));
    assert_eq!(b.get_multiplier(referrer), 20000);
}

#[test]
fn test_displace_last_entry() {
    let mut b = setup();
    for i in 0..50u32 {
        record(&mut b, 1000 + i as u64, 50 - i);
    }
    let board = b.get_leaderboard();
    assert_eq!(board.len(), 50);
    for i in 0..50u32 {
        assert_eq!(board[i as usize].1, 50 - i);
    }
    let new_referrer = 5000;
    record(&mut b, new_referrer, 51);
    let board2 = b.get_leaderboard();
    assert_eq!(board2.len(), 50);
    assert_eq!(board2[0], (new_referrer, 51));
    assert_eq!(board2[49].1, 2);
}

#[test]
fn test_rank_query() {
    let mut b = setup();
    record(&mut b, 1, 10);
    record(&mut b, 2, 5);
    record(&mut b, 3, 1);
    assert_eq!(b.get_rank(1), Some(1));
    assert_eq!(b.get_rank(2), Some(2));
    assert_eq!(b.get_rank(3), Some(3));
    assert_eq!(b.get_rank(4), None);
}

#[test]
fn test_multiplier_tiers() {
    let mut b = setup();
    let addrs: Vec<u64> = (0..11).map(|i| 200 + i).collect();
    for (i, a) in addrs.iter().enumerate() {
        record(&mut b, *a, 11 - i as u32);
    }
    for i in 0..3 {
        assert_eq!(b.get_multiplier(addrs[i]), 20000);
    }
    for i in 3..10 {
        assert_eq!(b.get_multiplier(addrs[i]), 15000);
    }
    assert_eq!(b.get_multiplier(addrs[10]), 12500);
    assert_eq!(b.get_multiplier(999), 10000);
}

#[test]
fn test_event_emission() {
    let mut b = setup();
    let referrer = 7;
    let top_three = record(&mut b, referrer, 1);
    assert_eq!(top_three.len(), 1);
    assert_eq!(top_three[0], referrer);
}

#[test]
fn leaderboard_rejections() {
    let mut b = ReferralLeaderboardContract::new();
    assert_eq!(b.record_referral(REFERRAL_CONTRACT, 1, 1).map(|_| ()), Err(Rejection::NotInitialized));
    b.initialize(REFERRAL_CONTRACT).unwrap();
    assert_eq!(b.initialize(REFERRAL_CONTRACT), Err(Rejection::AlreadyInitialized));
    assert_eq!(b.record_referral(99, 1, 1).map(|_| ()), Err(Rejection::Unauthorized));
    assert_eq!(Rejection::Unauthorized.message(), "Unauthorized");
}

#[test]
fn leaderboard_update_replaces_old_entry_and_keeps_ties_in_order() {
    let mut b = setup();
    record(&mut b, 1, 5);
    record(&mut b, 2, 5);
    record(&mut b, 3, 7);
    // a referrer appears once; its new count ranks it again
    let top = record(&mut b, 1, 6);
    assert_eq!(b.get_leaderboard(), vec![(3, 7), (1, 6), (2, 5)]);
    assert_eq!(top, vec![3, 1, 2]);
    // equal counts keep the earlier entry first
    record(&mut b, 4, 6);
    assert_eq!(b.get_leaderboard(), vec![(3, 7), (1, 6), (4, 6), (2, 5)]);
}

#[test]
fn leaderboard_low_count_does_not_enter_a_full_board() {
    let mut b = setup();
    for i in 0..50u64 {
        record(&mut b, i, 10);
    }
    record(&mut b, 77, 10);
    assert_eq!(b.get_leaderboard().len(), 50);
    assert_eq!(b.get_rank(77), None);
    assert_eq!(b.get_multiplier(77), 10000);
}
