//! Prediction markets on learners' goals: bettors stake on yes or no until
//! the resolution date, the admin resolves the market, and winners share the
//! losing pool less a 2% platform fee in proportion to their stakes.
use std::collections::HashMap;
use vstd::prelude::*;

use crate::arith::{div_i128, trunc_div};
use crate::ids::{pair_key, pair_key_spec, AccountId, Hash32};

verus! {

broadcast use vstd::std_specs::hash::group_hash_axioms;

/// The contract's declared error codes.
#[derive(Copy, Clone, Debug, PartialEq, Eq, Structural)]
pub enum Error {
    NotInitialized,
    AlreadyInitialized,
    MarketNotFound,
    MarketAlreadyResolved,
    MarketNotResolved,
    InvalidAmount,
    NotAdmin,
    ResolutionNotReady,
    NoWinnings,
}

/// Why the contract aborts a call.
#[derive(Copy, Clone, Debug, PartialEq, Eq, Structural)]
pub enum Rejection {
    AlreadyInitialized,
    NotInitialized,
    ResolutionDateNotInFuture,
    InvalidAmount,
    MarketNotFound,
    MarketAlreadyResolved,
    ResolutionDatePassed,
    ResolutionDateNotReached,
    MarketNotResolved,
    BetNotFound,
    AlreadyClaimed,
    OutcomeNotSet,
    BetDidNotWin,
    CannotCancelResolved,
}

impl Rejection {
    /// The message with which the contract aborts.
    pub fn message(&self) -> (m: &'static str)
        ensures
            m == (match *self {
                Rejection::AlreadyInitialized => "already initialized",
                Rejection::NotInitialized => "not initialized",
                Rejection::ResolutionDateNotInFuture => "resolution date must be in future",
                Rejection::InvalidAmount => "invalid amount",
                Rejection::MarketNotFound => "market not found",
                Rejection::MarketAlreadyResolved => "market already resolved",
                Rejection::ResolutionDatePassed => "market resolution date passed",
                Rejection::ResolutionDateNotReached => "resolution date not reached",
                Rejection::MarketNotResolved => "market not resolved",
                Rejection::BetNotFound => "bet not found",
                Rejection::AlreadyClaimed => "winnings already claimed",
                Rejection::OutcomeNotSet => "outcome not set",
                Rejection::BetDidNotWin => "bet did not win",
                Rejection::CannotCancelResolved => "cannot cancel resolved market",
            }),
    {
        match self {
            Rejection::AlreadyInitialized => "already initialized",
            Rejection::NotInitialized => "not initialized",
            Rejection::ResolutionDateNotInFuture => "resolution date must be in future",
            Rejection::InvalidAmount => "invalid amount",
            Rejection::MarketNotFound => "market not found",
            Rejection::MarketAlreadyResolved => "market already resolved",
            Rejection::ResolutionDatePassed => "market resolution date passed",
            Rejection::ResolutionDateNotReached => "resolution date not reached",
            Rejection::MarketNotResolved => "market not resolved",
            Rejection::BetNotFound => "bet not found",
            Rejection::AlreadyClaimed => "winnings already claimed",
            Rejection::OutcomeNotSet => "outcome not set",
            Rejection::BetDidNotWin => "bet did not win",
            Rejection::CannotCancelResolved => "cannot cancel resolved market",
        }
    }
}

#[derive(Copy, Clone, Debug)]
pub struct MarketRecord {
    pub id: u32,
    pub creator: AccountId,
    pub learner: AccountId,
    pub goal_description_hash: Hash32,
    pub resolution_date: u64,
    pub token: AccountId,
    pub yes_pool: i128,
    pub no_pool: i128,
    pub resolved: bool,
    pub outcome: Option<bool>,
}

#[derive(Copy, Clone, Debug, PartialEq, Eq, Structural)]
pub struct BetRecord {
    pub bettor: AccountId,
    pub market_id: u32,
    pub outcome: bool,
    pub amount: i128,
    pub claimed: bool,
}

/// 2%.
pub const PLATFORM_FEE_BPS: i128 = 200;

/// The winning and losing pools of `market` once it resolved to `winning`.
pub open spec fn pools(market: MarketRecord, winning: bool) -> (int, int) {
    if winning {
        (market.yes_pool as int, market.no_pool as int)
    } else {
        (market.no_pool as int, market.yes_pool as int)
    }
}

/// The platform fee taken from a losing pool.
pub open spec fn fee_of(losing: int) -> int {
    trunc_div(losing * PLATFORM_FEE_BPS, 10_000)
}

/// What a winning bet of `amount` is paid: the stake back plus its share of
/// the losing pool after the platform fee.
pub open spec fn payout(market: MarketRecord, winning: bool, amount: i128) -> int {
    let (winning_pool, losing_pool) = pools(market, winning);
    let net = losing_pool - fee_of(losing_pool);
    amount + trunc_div(net * amount, winning_pool)
}

/// The payout arithmetic stays within `i128`.
pub open spec fn payout_fits(market: MarketRecord, winning: bool, amount: i128) -> bool {
    let (winning_pool, losing_pool) = pools(market, winning);
    let net = losing_pool - fee_of(losing_pool);
    &&& winning_pool != 0
    &&& i128::MIN <= losing_pool * PLATFORM_FEE_BPS <= i128::MAX
    &&& i128::MIN <= net <= i128::MAX
    &&& i128::MIN <= net * amount <= i128::MAX
    &&& i128::MIN <= trunc_div(net * amount, winning_pool) <= i128::MAX
    &&& i128::MIN <= payout(market, winning, amount) <= i128::MAX
}

/// The markets' stored state.
pub struct PredictionMarket {
    pub admin: Option<AccountId>,
    pub market_count: u32,
    pub markets: HashMap<u32, MarketRecord>,
    /// Bets, under the key `pair_key(bettor, market id)`.
    pub bets: HashMap<u128, BetRecord>,
    /// Each market's bettors, in the order of their first bet.
    pub bettors: HashMap<u32, Vec<AccountId>>,
}

/// A stake handed back when a market is cancelled.
#[derive(Copy, Clone, Debug, PartialEq, Eq, Structural)]
pub struct Refund {
    pub bettor: AccountId,
    pub amount: i128,
}

fn list_contains(v: &Vec<AccountId>, a: AccountId) -> (b: bool)
    ensures
        b == v@.contains(a),
{
    let mut i: usize = 0;
    while i < v.len()
        invariant
            i <= v@.len(),
            forall|j: int| 0 <= j < i ==> #[trigger] v@[j] != a,
        decreases v.len() - i,
    {
        if v[i] == a {
            return true;
        }
        i = i + 1;
    }
    false
}

impl PredictionMarket {
    /// The bettors of `market_id`, in the order of their first bet.
    pub open spec fn bettors_of(&self, market_id: u32) -> Seq<AccountId> {
        if self.bettors@.contains_key(market_id) {
            self.bettors@[market_id]@
        } else {
            Seq::empty()
        }
    }

    /// Every listed bettor has a bet on its market, and no bettor is listed
    /// twice.
    pub open spec fn well_formed(&self) -> bool {
        &&& forall|id: u32, i: int|
            0 <= i < self.bettors_of(id).len() ==> (#[trigger] self.bet_of(
                self.bettors_of(id)[i],
                id,
            )) is Some
        &&& forall|id: u32, i: int, j: int|
            0 <= i < j < self.bettors_of(id).len() ==> #[trigger] self.bettors_of(id)[i]
                != #[trigger] self.bettors_of(id)[j]
    }

    /// The refund of `bettor`'s recorded stake on `market_id`.
    pub open spec fn refund_of(&self, bettor: AccountId, market_id: u32) -> Refund {
        Refund { bettor, amount: self.bet_of(bettor, market_id)->Some_0.amount }
    }

    /// One refund per bettor of `market_id`, in the order of the bettors.
    pub open spec fn refunds_for(&self, market_id: u32) -> Seq<Refund> {
        self.bettors_of(market_id).map_values(|b: AccountId| self.refund_of(b, market_id))
    }

    pub open spec fn bet_of(&self, bettor: AccountId, market_id: u32) -> Option<BetRecord> {
        let k = pair_key_spec(bettor, market_id as u64);
        if self.bets@.contains_key(k) {
            Some(self.bets@[k])
        } else {
            None
        }
    }

    /// The reason `bettor` cannot claim on `market_id`, if any.
    pub open spec fn claim_rejection(&self, bettor: AccountId, market_id: u32) -> Option<Rejection> {
        if !self.markets@.contains_key(market_id) {
            Some(Rejection::MarketNotFound)
        } else if !self.markets@[market_id].resolved {
            Some(Rejection::MarketNotResolved)
        } else if self.bet_of(bettor, market_id) is None {
            Some(Rejection::BetNotFound)
        } else if self.bet_of(bettor, market_id)->Some_0.claimed {
            Some(Rejection::AlreadyClaimed)
        } else if self.markets@[market_id].outcome is None {
            Some(Rejection::OutcomeNotSet)
        } else if self.bet_of(bettor, market_id)->Some_0.outcome
            != self.markets@[market_id].outcome->Some_0 {
            Some(Rejection::BetDidNotWin)
        } else {
            None
        }
    }

    /// A contract that has not been initialized.
    pub fn new() -> (s: Self)
        ensures
            s.admin is None,
            s.market_count == 0,
            s.markets@ == Map::<u32, MarketRecord>::empty(),
            s.bets@ == Map::<u128, BetRecord>::empty(),
            s.bettors@ == Map::<u32, Vec<AccountId>>::empty(),
            s.well_formed(),
    {
        PredictionMarket {
            admin: None,
            market_count: 0,
            markets: HashMap::new(),
            bets: HashMap::new(),
            bettors: HashMap::new(),
        }
    }

    /// Initialize with the admin that resolves and cancels markets.
    pub fn initialize(&mut self, admin: AccountId) -> (r: Result<(), Rejection>)
        ensures
            r == (if old(self).admin is Some {
                Err(Rejection::AlreadyInitialized)
            } else {
                Ok(())
            }),
            final(self).admin == (if r is Ok { Some(admin) } else { old(self).admin }),
            final(self).market_count == (if r is Ok { 0 } else { old(self).market_count }),
            final(self).markets@ == old(self).markets@,
            final(self).bets@ == old(self).bets@,
            final(self).bettors@ == old(self).bettors@,
    {
        if self.admin.is_some() {
            return Err(Rejection::AlreadyInitialized);
        }
        self.admin = Some(admin);
        self.market_count = 0;
        Ok(())
    }

    /// Open a market on `learner`'s goal that resolves at `resolution_date`.
    pub fn create_market(
        &mut self,
        creator: AccountId,
        learner: AccountId,
        goal_description_hash: Hash32,
        resolution_date: u64,
        token: AccountId,
        now: u64,
    ) -> (r: Result<u32, Rejection>)
        requires
            resolution_date > now ==> old(self).market_count < u32::MAX,
        ensures
            r == (if resolution_date <= now {
                Err(Rejection::ResolutionDateNotInFuture)
            } else {
                Ok((old(self).market_count + 1) as u32)
            }),
            r is Err ==> final(self).market_count == old(self).market_count && final(self).markets@
                == old(self).markets@,
            r matches Ok(id) ==> final(self).market_count == id && final(self).markets@ == old(self).markets@.insert(
                id,
                MarketRecord {
                    id,
                    creator,
                    learner,
                    goal_description_hash,
                    resolution_date,
                    token,
                    yes_pool: 0,
                    no_pool: 0,
                    resolved: false,
                    outcome: None,
                },
            ),
            final(self).admin == old(self).admin,
            final(self).bets@ == old(self).bets@,
            final(self).bettors@ == old(self).bettors@,
    {
        if resolution_date <= now {
            return Err(Rejection::ResolutionDateNotInFuture);
        }
        let market_id = self.market_count + 1;
        let market = MarketRecord {
            id: market_id,
            creator,
            learner,
            goal_description_hash,
            resolution_date,
            token,
            yes_pool: 0,
            no_pool: 0,
            resolved: false,
            outcome: None,
        };
        self.markets.insert(market_id, market);
        self.market_count = market_id;
        Ok(market_id)
    }

    /// Stake `amount` on `outcome` (the host moves the tokens from the
    /// bettor).  A later bet on the same market replaces the bettor's
    /// recorded bet, while both stakes stay in the pools.
    pub fn place_bet(&mut self, bettor: AccountId, market_id: u32, outcome: bool, amount: i128, now: u64) -> (r:
        Result<(), Rejection>)
        requires
            old(self).markets@.contains_key(market_id) && amount > 0 ==> (if outcome {
                old(self).markets@[market_id].yes_pool + amount <= i128::MAX
            } else {
                old(self).markets@[market_id].no_pool + amount <= i128::MAX
            }),
        ensures
            r == (if amount <= 0 {
                Err(Rejection::InvalidAmount)
            } else if !old(self).markets@.contains_key(market_id) {
                Err(Rejection::MarketNotFound)
            } else if old(self).markets@[market_id].resolved {
                Err(Rejection::MarketAlreadyResolved)
            } else if now >= old(self).markets@[market_id].resolution_date {
                Err(Rejection::ResolutionDatePassed)
            } else {
                Ok(())
            }),
            r is Err ==> final(self).markets@ == old(self).markets@ && final(self).bets@ == old(self).bets@,
            r is Ok ==> {
                let m = old(self).markets@[market_id];
                &&& final(self).markets@ == old(self).markets@.insert(
                    market_id,
                    if outcome {
                        MarketRecord { yes_pool: (m.yes_pool + amount) as i128, ..m }
                    } else {
                        MarketRecord { no_pool: (m.no_pool + amount) as i128, ..m }
                    },
                )
                &&& final(self).bets@ == old(self).bets@.insert(
                    pair_key_spec(bettor, market_id as u64),
                    BetRecord { bettor, market_id, outcome, amount, claimed: false },
                )
                &&& forall|id: u32|
                    #[trigger] final(self).bettors_of(id) == if id == market_id && !old(
                        self,
                    ).bettors_of(id).contains(bettor) {
                        old(self).bettors_of(id).push(bettor)
                    } else {
                        old(self).bettors_of(id)
                    }
            },
            r is Err ==> final(self).bettors@ == old(self).bettors@,
            old(self).well_formed() ==> final(self).well_formed(),
            final(self).admin == old(self).admin,
            final(self).market_count == old(self).market_count,
    {
        if amount <= 0 {
            return Err(Rejection::InvalidAmount);
        }
        let mut market = match self.markets.get(&market_id) {
            Some(m) => *m,
            None => return Err(Rejection::MarketNotFound),
        };
        if market.resolved {
            return Err(Rejection::MarketAlreadyResolved);
        }
        if now >= market.resolution_date {
            return Err(Rejection::ResolutionDatePassed);
        }
        if outcome {
            market.yes_pool = market.yes_pool + amount;
        } else {
            market.no_pool = market.no_pool + amount;
        }
        self.markets.insert(market_id, market);
        let bet = BetRecord { bettor, market_id, outcome, amount, claimed: false };
        let ghost before = *self;
        self.bets.insert(pair_key(bettor, market_id as u64), bet);
        let mut list = match self.bettors.remove(&market_id) {
            Some(v) => v,
            None => Vec::new(),
        };
        let ghost old_list = list@;
        let present = list_contains(&list, bettor);
        if !present {
            list.push(bettor);
        }
        self.bettors.insert(market_id, list);
        proof {
            assert(old_list == before.bettors_of(market_id));
            assert forall|id: u32| #[trigger] self.bettors_of(id) == if id == market_id && !before.bettors_of(id).contains(bettor) {
                before.bettors_of(id).push(bettor)
            } else {
                before.bettors_of(id)
            } by {}
            assert(before.bets@ == old(self).bets@);
            assert(before.bettors@ == old(self).bettors@);
            if old(self).well_formed() {
                assert forall|id: u32, i: int| 0 <= i < before.bettors_of(id).len() implies (#[trigger] before.bet_of(
                    before.bettors_of(id)[i],
                    id,
                )) is Some by {
                    assert(old(self).bet_of(old(self).bettors_of(id)[i], id) is Some);
                }
                assert forall|id: u32, i: int, j: int| 0 <= i < j < before.bettors_of(id).len() implies #[trigger] before.bettors_of(id)[i]
                    != #[trigger] before.bettors_of(id)[j] by {
                    assert(old(self).bettors_of(id)[i] != old(self).bettors_of(id)[j]);
                }
                assert forall|id: u32, i: int| 0 <= i < self.bettors_of(id).len() implies (#[trigger] self.bet_of(
                    self.bettors_of(id)[i],
                    id,
                )) is Some by {
                    let b = self.bettors_of(id)[i];
                    crate::ids::lemma_pair_key_injective(bettor, market_id as u64, b, id as u64);
                    if id == market_id && b == bettor {
                        assert(self.bets@.contains_key(pair_key_spec(bettor, market_id as u64)));
                    } else {
                        let bs = before.bettors_of(id);
                        if id == market_id && !bs.contains(bettor) {
                            assert(i < bs.len());
                        }
                        assert(bs[i] == b);
                        assert(before.bet_of(bs[i], id) is Some);
                        assert(before.bets@.contains_key(pair_key_spec(b, id as u64)));
                        assert(self.bets@.contains_key(pair_key_spec(b, id as u64)));
                    }
                }
                assert forall|id: u32, i: int, j: int| 0 <= i < j < self.bettors_of(id).len() implies #[trigger] self.bettors_of(id)[i]
                    != #[trigger] self.bettors_of(id)[j] by {
                    let bs = before.bettors_of(id);
                    if id == market_id && !bs.contains(bettor) && j == bs.len() {
                        assert(bs[i] == self.bettors_of(id)[i]);
                        assert(bs.contains(bs[i]));
                    } else {
                        assert(bs[i] == self.bettors_of(id)[i] && bs[j] == self.bettors_of(id)[j]);
                    }
                }
            }
        }
        Ok(())
    }

    /// Settle `market_id` on `outcome` at time `now` (admin only; the host
    /// checks the admin's authorization).
    pub fn resolve_market(&mut self, market_id: u32, outcome: bool, now: u64) -> (r: Result<
        (),
        Rejection,
    >)
        ensures
            r == (if old(self).admin is None {
                Err(Rejection::NotInitialized)
            } else if !old(self).markets@.contains_key(market_id) {
                Err(Rejection::MarketNotFound)
            } else if old(self).markets@[market_id].resolved {
                Err(Rejection::MarketAlreadyResolved)
            } else if now < old(self).markets@[market_id].resolution_date {
                Err(Rejection::ResolutionDateNotReached)
            } else {
                Ok(())
            }),
            final(self).markets@ == (if r is Ok {
                old(self).markets@.insert(
                    market_id,
                    MarketRecord {
                        resolved: true,
                        outcome: Some(outcome),
                        ..old(self).markets@[market_id]
                    },
                )
            } else {
                old(self).markets@
            }),
            final(self).admin == old(self).admin,
            final(self).market_count == old(self).market_count,
            final(self).bets@ == old(self).bets@,
            final(self).bettors@ == old(self).bettors@,
    {
        if self.admin.is_none() {
            return Err(Rejection::NotInitialized);
        }
        let mut market = match self.markets.get(&market_id) {
            Some(m) => *m,
            None => return Err(Rejection::MarketNotFound),
        };
        if market.resolved {
            return Err(Rejection::MarketAlreadyResolved);
        }
        if now < market.resolution_date {
            return Err(Rejection::ResolutionDateNotReached);
        }
        market.resolved = true;
        market.outcome = Some(outcome);
        self.markets.insert(market_id, market);
        Ok(())
    }

    /// Pay `bettor`'s winning bet on `market_id`; returns the payout, which
    /// the host transfers to the bettor.
    pub fn claim_winnings(&mut self, bettor: AccountId, market_id: u32) -> (r: Result<
        i128,
        Rejection,
    >)
        requires
            old(self).claim_rejection(bettor, market_id) is None ==> payout_fits(
                old(self).markets@[market_id],
                old(self).markets@[market_id].outcome->Some_0,
                old(self).bet_of(bettor, market_id)->Some_0.amount,
            ),
        ensures
            match old(self).claim_rejection(bettor, market_id) {
                Some(e) => r == Err::<i128, Rejection>(e) && final(self).bets@ == old(self).bets@,
                None => {
                    let bet = old(self).bet_of(bettor, market_id)->Some_0;
                    &&& r == Ok::<i128, Rejection>(
                        payout(
                            old(self).markets@[market_id],
                            old(self).markets@[market_id].outcome->Some_0,
                            bet.amount,
                        ) as i128,
                    )
                    &&& final(self).bets@ == old(self).bets@.insert(
                        pair_key_spec(bettor, market_id as u64),
                        BetRecord { claimed: true, ..bet },
                    )
                },
            },
            final(self).admin == old(self).admin,
            final(self).market_count == old(self).market_count,
            final(self).markets@ == old(self).markets@,
            final(self).bettors@ == old(self).bettors@,
            old(self).well_formed() ==> final(self).well_formed(),
    {
        let market = match self.markets.get(&market_id) {
            Some(m) => *m,
            None => return Err(Rejection::MarketNotFound),
        };
        if !market.resolved {
            return Err(Rejection::MarketNotResolved);
        }
        let key = pair_key(bettor, market_id as u64);
        let mut bet = match self.bets.get(&key) {
            Some(b) => *b,
            None => return Err(Rejection::BetNotFound),
        };
        if bet.claimed {
            return Err(Rejection::AlreadyClaimed);
        }
        let winning_outcome = match market.outcome {
            Some(o) => o,
            None => return Err(Rejection::OutcomeNotSet),
        };
        if bet.outcome != winning_outcome {
            return Err(Rejection::BetDidNotWin);
        }
        let losing_pool = if winning_outcome {
            market.no_pool
        } else {
            market.yes_pool
        };
        let winning_pool = if winning_outcome {
            market.yes_pool
        } else {
            market.no_pool
        };
        let platform_fee = div_i128(losing_pool * PLATFORM_FEE_BPS, 10_000);
        let net_winnings = losing_pool - platform_fee;
        let share = div_i128(net_winnings * bet.amount, winning_pool);
        let total_payout = bet.amount + share;
        bet.claimed = true;
        let ghost before = *self;
        self.bets.insert(key, bet);
        proof {
            if before.well_formed() {
                assert forall|id: u32, i: int| 0 <= i < self.bettors_of(id).len() implies (#[trigger] self.bet_of(
                    self.bettors_of(id)[i],
                    id,
                )) is Some by {
                    assert(before.bet_of(before.bettors_of(id)[i], id) is Some);
                }
                assert forall|id: u32, i: int, j: int| 0 <= i < j < self.bettors_of(id).len() implies #[trigger] self.bettors_of(id)[i]
                    != #[trigger] self.bettors_of(id)[j] by {
                    assert(before.bettors_of(id)[i] != before.bettors_of(id)[j]);
                }
            }
        }
        Ok(total_payout)
    }

    /// Cancel `market_id` (admin only): close it without an outcome and
    /// refund every bet.  Returns one refund per bettor, which the host pays
    /// out; each refunded bet is marked claimed, so it can never be claimed.
    pub fn cancel_market(&mut self, market_id: u32) -> (r: Result<Vec<Refund>, Rejection>)
        requires
            old(self).well_formed(),
        ensures
            final(self).well_formed(),
            r is Err ==> r == Err::<Vec<Refund>, Rejection>(
                if old(self).admin is None {
                    Rejection::NotInitialized
                } else if !old(self).markets@.contains_key(market_id) {
                    Rejection::MarketNotFound
                } else {
                    Rejection::CannotCancelResolved
                },
            ),
            r is Ok <==> (old(self).admin is Some && old(self).markets@.contains_key(market_id)
                && !old(self).markets@[market_id].resolved),
            r is Ok ==> r->Ok_0@ == old(self).refunds_for(market_id),
            final(self).markets@ == (if r is Ok {
                old(self).markets@.insert(
                    market_id,
                    MarketRecord { resolved: true, ..old(self).markets@[market_id] },
                )
            } else {
                old(self).markets@
            }),
            final(self).bets@.dom() == old(self).bets@.dom(),
            forall|b: AccountId, id: u32|
                #[trigger] final(self).bet_of(b, id) == if r is Ok && id == market_id && old(
                    self,
                ).bettors_of(id).contains(b) {
                    Some(BetRecord { claimed: true, ..old(self).bet_of(b, id)->Some_0 })
                } else {
                    old(self).bet_of(b, id)
                },
            final(self).bettors@ == old(self).bettors@,
            final(self).admin == old(self).admin,
            final(self).market_count == old(self).market_count,
    {
        if self.admin.is_none() {
            return Err(Rejection::NotInitialized);
        }
        let mut market = match self.markets.get(&market_id) {
            Some(m) => *m,
            None => return Err(Rejection::MarketNotFound),
        };
        if market.resolved {
            return Err(Rejection::CannotCancelResolved);
        }
        market.resolved = true;
        self.markets.insert(market_id, market);
        let list: Vec<AccountId> = match self.bettors.get(&market_id) {
            Some(v) => v.clone(),
            None => Vec::new(),
        };
        let ghost start = *self;
        let ghost bs = list@;
        assert(bs == old(self).bettors_of(market_id));
        let mut refunds: Vec<Refund> = Vec::new();
        let mut i: usize = 0;
        while i < list.len()
            invariant
                bs == list@,
                bs == old(self).bettors_of(market_id),
                old(self).well_formed(),
                i <= bs.len(),
                self.bettors@ == old(self).bettors@,
                self.markets@ == start.markets@,
                self.admin == old(self).admin,
                self.market_count == old(self).market_count,
                self.bets@.dom() == old(self).bets@.dom(),
                refunds@ == old(self).refunds_for(market_id).take(i as int),
                forall|b: AccountId, id: u32|
                    #[trigger] self.bet_of(b, id) == if id == market_id && bs.take(i as int).contains(b) {
                        Some(BetRecord { claimed: true, ..old(self).bet_of(b, id)->Some_0 })
                    } else {
                        old(self).bet_of(b, id)
                    },
            decreases bs.len() - i,
        {
            let b = list[i];
            proof {
                assert(old(self).bet_of(bs[i as int], market_id) is Some);
                if bs.take(i as int).contains(b) {
                    let j = choose|j: int| 0 <= j < i && bs.take(i as int)[j] == b;
                    assert(bs[j] == bs[i as int]);
                }
                assert(self.bet_of(b, market_id) == old(self).bet_of(b, market_id));
            }
            let key = pair_key(b, market_id as u64);
            let bet = match self.bets.get(&key) {
                Some(x) => *x,
                None => {
                    proof {
                        assert(false);
                    }
                    return Err(Rejection::MarketNotFound);
                },
            };
            let ghost prev = *self;
            self.bets.insert(key, BetRecord { claimed: true, ..bet });
            refunds.push(Refund { bettor: b, amount: bet.amount });
            proof {
                assert(bs.take(i + 1) =~= bs.take(i as int).push(b));
                assert(refunds@ =~= old(self).refunds_for(market_id).take(i + 1));
                assert forall|b2: AccountId, id: u32| #[trigger] self.bet_of(b2, id) == if id == market_id
                    && bs.take(i + 1).contains(b2) {
                    Some(BetRecord { claimed: true, ..old(self).bet_of(b2, id)->Some_0 })
                } else {
                    old(self).bet_of(b2, id)
                } by {
                    crate::ids::lemma_pair_key_injective(b, market_id as u64, b2, id as u64);
                    vstd::seq_lib::lemma_seq_contains_after_push(bs.take(i as int), b, b2);
                    assert(prev.bet_of(b2, id) == if id == market_id && bs.take(i as int).contains(b2) {
                        Some(BetRecord { claimed: true, ..old(self).bet_of(b2, id)->Some_0 })
                    } else {
                        old(self).bet_of(b2, id)
                    });
                }
            }
            i = i + 1;
        }
        proof {
            assert(bs.take(i as int) =~= bs);
            assert(refunds@ =~= old(self).refunds_for(market_id));
            assert forall|id: u32, k: int| 0 <= k < self.bettors_of(id).len() implies (#[trigger] self.bet_of(
                self.bettors_of(id)[k],
                id,
            )) is Some by {
                assert(old(self).bet_of(old(self).bettors_of(id)[k], id) is Some);
            }
            assert forall|id: u32, k: int, j: int| 0 <= k < j < self.bettors_of(id).len() implies #[trigger] self.bettors_of(id)[k]
                != #[trigger] self.bettors_of(id)[j] by {
                assert(old(self).bettors_of(id)[k] != old(self).bettors_of(id)[j]);
            }
        }
        Ok(refunds)
    }

    /// The market record `id`.
    pub fn get_market(&self, id: u32) -> (r: Result<MarketRecord, Rejection>)
        ensures
            self.markets@.contains_key(id) ==> r == Ok::<MarketRecord, Rejection>(
                self.markets@[id],
            ),
            !self.markets@.contains_key(id) ==> r == Err::<MarketRecord, Rejection>(
                Rejection::MarketNotFound,
            ),
    {
        match self.markets.get(&id) {
            Some(m) => Ok(*m),
            None => Err(Rejection::MarketNotFound),
        }
    }

    /// The market's `(yes_pool, no_pool)`.
    pub fn get_odds(&self, market_id: u32) -> (r: Result<(i128, i128), Rejection>)
        ensures
            self.markets@.contains_key(market_id) ==> r == Ok::<(i128, i128), Rejection>(
                (self.markets@[market_id].yes_pool, self.markets@[market_id].no_pool),
            ),
            !self.markets@.contains_key(market_id) ==> r == Err::<(i128, i128), Rejection>(
                Rejection::MarketNotFound,
            ),
    {
        match self.markets.get(&market_id) {
            Some(m) => Ok((m.yes_pool, m.no_pool)),
            None => Err(Rejection::MarketNotFound),
        }
    }
}

/// A winning bet never gets back less than its stake, as long as the pools
/// hold no negative stakes.
pub proof fn lemma_winner_recovers_stake(market: MarketRecord, winning: bool, amount: i128)
    requires
        market.yes_pool >= 0,
        market.no_pool >= 0,
        amount > 0,
        pools(market, winning).0 > 0,
    ensures
        payout(market, winning, amount) >= amount,
{
    let (w, l) = pools(market, winning);
    assert(0 <= l * PLATFORM_FEE_BPS) by (nonlinear_arith)
        requires
            l >= 0,
    ;
    assert(fee_of(l) <= l) by (nonlinear_arith)
        requires
            l >= 0,
            fee_of(l) == (l * 200) / 10_000,
    ;
    let net = l - fee_of(l);
    assert(net * amount >= 0) by (nonlinear_arith)
        requires
            net >= 0,
            amount > 0,
    ;
}

/// What a winning bet is paid.  On a market resolved to yes, a winning
/// stake of `amount` gets back `amount` plus the share `amount / yes_pool`
/// of the no pool less its 2% fee (`no_pool * 200 / 10_000`); on a market
/// resolved to no, the pools trade places.
pub proof fn lemma_payout_shares_losing_pool(market: MarketRecord, outcome: bool, amount: i128)
    requires
        market.yes_pool >= 0,
        market.no_pool >= 0,
        amount >= 0,
        outcome ==> market.yes_pool > 0,
        !outcome ==> market.no_pool > 0,
    ensures
        outcome ==> payout(market, outcome, amount) == amount + ((market.no_pool - market.no_pool
            * 200 / 10_000) * amount) / (market.yes_pool as int),
        !outcome ==> payout(market, outcome, amount) == amount + ((market.yes_pool
            - market.yes_pool * 200 / 10_000) * amount) / (market.no_pool as int),
{
    let y = market.yes_pool as int;
    let n = market.no_pool as int;
    assert(fee_of(y) == y * 200 / 10_000 && fee_of(n) == n * 200 / 10_000) by (nonlinear_arith)
        requires
            y >= 0,
            n >= 0,
            fee_of(y) == trunc_div(y * PLATFORM_FEE_BPS, 10_000),
            fee_of(n) == trunc_div(n * PLATFORM_FEE_BPS, 10_000),
            y * 200 == 0 ==> trunc_div(y * 200, 10_000) == 0,
            y * 200 > 0 ==> trunc_div(y * 200, 10_000) == y * 200 / 10_000,
            n * 200 == 0 ==> trunc_div(n * 200, 10_000) == 0,
            n * 200 > 0 ==> trunc_div(n * 200, 10_000) == n * 200 / 10_000,
    ;
    assert((y - y * 200 / 10_000) * amount >= 0 && (n - n * 200 / 10_000) * amount >= 0)
        by (nonlinear_arith)
        requires
            y >= 0,
            n >= 0,
            amount >= 0,
    ;
}

/// A claim is paid only for an unclaimed bet on the outcome a resolved
/// market settled on; a bet on the other outcome is refused as not winning.
pub proof fn lemma_only_unclaimed_winning_bets_paid(pm: PredictionMarket, bettor: AccountId, market_id: u32)
    ensures
        pm.claim_rejection(bettor, market_id) is None <==> {
            let k = pair_key_spec(bettor, market_id as u64);
            &&& pm.markets@.contains_key(market_id)
            &&& pm.markets@[market_id].resolved
            &&& pm.markets@[market_id].outcome is Some
            &&& pm.bets@.contains_key(k)
            &&& !pm.bets@[k].claimed
            &&& pm.bets@[k].outcome == pm.markets@[market_id].outcome->Some_0
        },
        ({
            let k = pair_key_spec(bettor, market_id as u64);
            pm.markets@.contains_key(market_id) && pm.markets@[market_id].resolved
                && pm.markets@[market_id].outcome is Some && pm.bets@.contains_key(k)
                && !pm.bets@[k].claimed && pm.bets@[k].outcome
                != pm.markets@[market_id].outcome->Some_0
        }) ==> pm.claim_rejection(bettor, market_id) == Some(Rejection::BetDidNotWin),
{
}

} // verus!
