use mentorminds::prediction_market::{PredictionMarket, Rejection};

const ADMIN: u64 = 1;
const CREATOR: u64 = 2;
const LEARNER: u64 = 3;
const BETTOR: u64 = 4;
const OTHER: u64 = 5;
const TOKEN: u64 = 6;

fn or_panic<T>(r: Result<T, Rejection>) -> T {
    match r {
        Ok(v) => v,
        Err(e) => panic!("{}", e.message()),
    }
}

fn setup() -> PredictionMarket {
    let mut m = PredictionMarket::new();
    or_panic(m.initialize(ADMIN));
    m
}

#[test]
fn test_create_market() {
    let mut m = setup();
    let id = or_panic(m.create_market(CREATOR, LEARNER, [0u8; 32], 1000, TOKEN, 0));
    assert_eq!(id, 1);
}

#[test]
fn test_place_bet() {
    let mut m = setup();
    let id = or_panic(m.create_market(CREATOR, LEARNER, [0u8; 32], 1000, TOKEN, 0));
    or_panic(m.place_bet(BETTOR, id, true, 100, 0));
    let (yes_pool, no_pool) = or_panic(m.get_odds(id));
    assert_eq!(yes_pool, 100);
    assert_eq!(no_pool, 0);
}

#[test]
fn test_resolve_market() {
    let mut m = setup();
    let id = or_panic(m.create_market(CREATOR, LEARNER, [0u8; 32], 100, TOKEN, 0));
    or_panic(m.resolve_market(id, true, 101));
    let market = or_panic(m.get_market(id));
    assert!(market.resolved);
    assert_eq!(market.outcome, Some(true));
}

#[test]
#[should_panic(expected = "resolution date must be in future")]
fn test_invalid_resolution_date() {
    let mut m = setup();
    or_panic(m.create_market(CREATOR, LEARNER, [0u8; 32], 0, TOKEN, 0));
}

#[test]
fn market_winner_gets_stake_plus_share() {
    let mut m = setup();
    let id = or_panic(m.create_market(CREATOR, LEARNER, [0u8; 32], 100, TOKEN, 0));
    or_panic(m.place_bet(BETTOR, id, true, 100, 1));
    or_panic(m.place_bet(OTHER, id, false, 100, 1));
    assert_eq!(m.resolve_market(id, true, 99).map(|_| ()), Err(Rejection::ResolutionDateNotReached));
    or_panic(m.resolve_market(id, true, 101));
    // losing pool 100, platform fee 2%: net 98 shared by the single winner.
    let won = or_panic(m.claim_winnings(BETTOR, id));
    assert_eq!(won, 198);
    assert_eq!(m.claim_winnings(BETTOR, id), Err(Rejection::AlreadyClaimed));
    assert_eq!(m.claim_winnings(OTHER, id), Err(Rejection::BetDidNotWin));
}

#[test]
fn market_rejections() {
    let mut m = setup();
    let id = or_panic(m.create_market(CREATOR, LEARNER, [0u8; 32], 100, TOKEN, 0));
    assert_eq!(m.place_bet(BETTOR, id, true, 0, 0), Err(Rejection::InvalidAmount));
    assert_eq!(m.place_bet(BETTOR, 9, true, 10, 0), Err(Rejection::MarketNotFound));
    assert_eq!(m.place_bet(BETTOR, id, true, 10, 100), Err(Rejection::ResolutionDatePassed));
    assert_eq!(m.claim_winnings(BETTOR, id), Err(Rejection::MarketNotResolved));
    or_panic(m.cancel_market(id));
    assert_eq!(m.cancel_market(id), Err(Rejection::CannotCancelResolved));
    assert_eq!(m.place_bet(BETTOR, id, true, 10, 0), Err(Rejection::MarketAlreadyResolved));
}

#[test]
fn market_cancel_refunds_every_bet_once() {
    let mut m = setup();
    let id = or_panic(m.create_market(CREATOR, LEARNER, [0u8; 32], 100, TOKEN, 0));
    or_panic(m.place_bet(BETTOR, id, true, 100, 1));
    or_panic(m.place_bet(OTHER, id, false, 40, 1));
    let refunds = or_panic(m.cancel_market(id));
    assert_eq!(refunds.len(), 2);
    assert_eq!((refunds[0].bettor, refunds[0].amount), (BETTOR, 100));
    assert_eq!((refunds[1].bettor, refunds[1].amount), (OTHER, 40));
    assert_eq!(m.claim_winnings(BETTOR, id), Err(Rejection::AlreadyClaimed));
    assert_eq!(m.cancel_market(id).map(|r| r.len()), Err(Rejection::CannotCancelResolved));
    assert_eq!(m.place_bet(BETTOR, id, true, 10, 2), Err(Rejection::MarketAlreadyResolved));
}
