//! Mentor reputation: learners review released sessions, one review per
//! session, and each mentor's rating is kept as a running sum and count.
use std::collections::HashMap;
use vstd::prelude::*;

use crate::ids::{AccountId, Hash32, SymbolId};

verus! {

broadcast use vstd::std_specs::hash::group_hash_axioms;

/// Mirror of the escrow contract's status.
#[derive(Copy, Clone, Debug, PartialEq, Eq, Structural)]
pub enum EscrowStatus {
    Active,
    Released,
    Disputed,
    Refunded,
    Resolved,
}

#[derive(Copy, Clone, Debug)]
pub struct ReviewRecord {
    pub session_id: SymbolId,
    pub mentor: AccountId,
    pub learner: AccountId,
    pub rating: u32,
    pub timestamp: u64,
    pub comment_hash: Hash32,
}

/// The escrow record as the escrow contract reports it for a session.
#[derive(Copy, Clone, Debug)]
pub struct EscrowInfo {
    pub id: u64,
    pub mentor: AccountId,
    pub learner: AccountId,
    pub amount: i128,
    pub session_id: SymbolId,
    pub status: EscrowStatus,
    pub created_at: u64,
    pub token_address: AccountId,
    pub platform_fee: i128,
    pub net_amount: i128,
    pub session_end_time: u64,
    pub auto_release_delay: u64,
    pub dispute_reason: SymbolId,
    pub resolved_at: u64,
    pub usd_amount: i128,
    pub quoted_token_amount: i128,
    pub send_asset: AccountId,
    pub dest_asset: AccountId,
    pub total_sessions: u32,
    pub sessions_completed: u32,
}

#[derive(Copy, Clone, Debug, PartialEq, Eq, Structural)]
pub enum Rejection {
    AlreadyInitialized,
    InvalidRating,
    DuplicateReview,
    EscrowContractNotSet,
    SessionNotReleased,
    ReviewNotFound,
}

impl Rejection {
    /// The message with which the contract aborts.
    pub fn message(&self) -> (m: &'static str)
        ensures
            m == (match *self {
                Rejection::AlreadyInitialized => "Already initialized",
                Rejection::InvalidRating => "InvalidRating",
                Rejection::DuplicateReview => "DuplicateReview",
                Rejection::EscrowContractNotSet => "EscrowContractNotSet",
                Rejection::SessionNotReleased => "SessionNotReleased",
                Rejection::ReviewNotFound => "Review not found",
            }),
    {
        match self {
            Rejection::AlreadyInitialized => "Already initialized",
            Rejection::InvalidRating => "InvalidRating",
            Rejection::DuplicateReview => "DuplicateReview",
            Rejection::EscrowContractNotSet => "EscrowContractNotSet",
            Rejection::SessionNotReleased => "SessionNotReleased",
            Rejection::ReviewNotFound => "Review not found",
        }
    }
}

/// The summed ratings of `mentor`'s reviews in `history`.
pub open spec fn rating_total(history: Seq<ReviewRecord>, mentor: AccountId) -> int
    decreases history.len(),
{
    if history.len() == 0 {
        0
    } else {
        rating_total(history.drop_last(), mentor) + if history.last().mentor == mentor {
            history.last().rating as int
        } else {
            0
        }
    }
}

/// The number of `mentor`'s reviews in `history`.
pub open spec fn review_total(history: Seq<ReviewRecord>, mentor: AccountId) -> int
    decreases history.len(),
{
    if history.len() == 0 {
        0
    } else {
        review_total(history.drop_last(), mentor) + if history.last().mentor == mentor {
            1int
        } else {
            0
        }
    }
}

/// The reputation contract's stored state.
pub struct ReputationContract {
    pub escrow_contract: Option<AccountId>,
    pub reviews: HashMap<SymbolId, ReviewRecord>,
    pub rating_sum: HashMap<AccountId, u32>,
    pub review_count: HashMap<AccountId, u32>,
    /// Every accepted review, oldest first.
    pub history: Ghost<Seq<ReviewRecord>>,
}

impl ReputationContract {
    pub open spec fn sum_of(&self, mentor: AccountId) -> u32 {
        if self.rating_sum@.contains_key(mentor) {
            self.rating_sum@[mentor]
        } else {
            0
        }
    }

    pub open spec fn count_of(&self, mentor: AccountId) -> u32 {
        if self.review_count@.contains_key(mentor) {
            self.review_count@[mentor]
        } else {
            0
        }
    }

    /// Each mentor's stored rating sum and review count are exactly the sum
    /// of the ratings and the number of its accepted reviews, so the rating
    /// that `get_mentor_rating` reports is their running average.
    pub open spec fn totals_match_history(&self) -> bool {
        forall|m: AccountId|
            #![trigger self.sum_of(m)]
            #![trigger self.count_of(m)]
            self.sum_of(m) == rating_total(self.history@, m) && self.count_of(m) == review_total(
                self.history@,
                m,
            )
    }

    /// Every mentor's rating sum lies between one and five times its review
    /// count: the average rating is always between 1 and 5.
    pub open spec fn ratings_in_range(&self) -> bool {
        forall|m: AccountId|
            #![trigger self.sum_of(m)]
            #![trigger self.count_of(m)]
            self.count_of(m) <= self.sum_of(m) <= 5 * self.count_of(m)
    }

    /// The reason a review of `session_id` with `rating` is refused before
    /// the escrow is consulted, if any.
    pub open spec fn early_rejection(&self, session_id: SymbolId, rating: u32) -> Option<
        Rejection,
    > {
        if rating < 1 || rating > 5 {
            Some(Rejection::InvalidRating)
        } else if self.reviews@.contains_key(session_id) {
            Some(Rejection::DuplicateReview)
        } else if self.escrow_contract is None {
            Some(Rejection::EscrowContractNotSet)
        } else {
            None
        }
    }

    /// A contract that has not been initialized.
    pub fn new() -> (s: Self)
        ensures
            s.ratings_in_range(),
            s.totals_match_history(),
            s.history@ == Seq::<ReviewRecord>::empty(),
            s.escrow_contract is None,
            s.reviews@ == Map::<SymbolId, ReviewRecord>::empty(),
            s.rating_sum@ == Map::<AccountId, u32>::empty(),
            s.review_count@ == Map::<AccountId, u32>::empty(),
    {
        ReputationContract {
            escrow_contract: None,
            reviews: HashMap::new(),
            rating_sum: HashMap::new(),
            review_count: HashMap::new(),
            history: Ghost(Seq::empty()),
        }
    }

    /// Initialize with the escrow contract that reports session status.
    pub fn initialize(&mut self, escrow_contract: AccountId) -> (r: Result<(), Rejection>)
        ensures
            r == (if old(self).escrow_contract is Some {
                Err(Rejection::AlreadyInitialized)
            } else {
                Ok(())
            }),
            final(self).escrow_contract == (if r is Ok {
                Some(escrow_contract)
            } else {
                old(self).escrow_contract
            }),
            final(self).reviews@ == old(self).reviews@,
            final(self).rating_sum@ == old(self).rating_sum@,
            final(self).review_count@ == old(self).review_count@,
            final(self).history@ == old(self).history@,
    {
        if self.escrow_contract.is_some() {
            return Err(Rejection::AlreadyInitialized);
        }
        self.escrow_contract = Some(escrow_contract);
        Ok(())
    }

    fn read_u32(m: &HashMap<AccountId, u32>, k: AccountId) -> (v: u32)
        ensures
            v == (if m@.contains_key(k) { m@[k] } else { 0 }),
    {
        match m.get(&k) {
            Some(v) => *v,
            None => 0,
        }
    }

    /// The checks made before the escrow is consulted; on success, the
    /// escrow contract from which the host must fetch the session's record.
    pub fn prepare_review(&self, session_id: SymbolId, rating: u32) -> (r: Result<
        AccountId,
        Rejection,
    >)
        ensures
            match self.early_rejection(session_id, rating) {
                Some(e) => r == Err::<AccountId, Rejection>(e),
                None => r == Ok::<AccountId, Rejection>(self.escrow_contract->Some_0),
            },
    {
        if rating < 1 || rating > 5 {
            return Err(Rejection::InvalidRating);
        }
        if self.reviews.contains_key(&session_id) {
            return Err(Rejection::DuplicateReview);
        }
        match self.escrow_contract {
            Some(e) => Ok(e),
            None => Err(Rejection::EscrowContractNotSet),
        }
    }

    /// Record `learner`'s review of `mentor` for `session_id`, given the
    /// escrow's record of that session (the host checks the learner's
    /// authorization).
    pub fn submit_review(
        &mut self,
        session_id: SymbolId,
        mentor: AccountId,
        learner: AccountId,
        rating: u32,
        comment_hash: Hash32,
        escrow: &EscrowInfo,
        now: u64,
    ) -> (r: Result<(), Rejection>)
        requires
            old(self).early_rejection(session_id, rating) is None && escrow.status
                == EscrowStatus::Released ==> old(self).sum_of(mentor) + rating <= u32::MAX
                && old(self).count_of(mentor) + 1 <= u32::MAX,
        ensures
            r == (match old(self).early_rejection(session_id, rating) {
                Some(e) => Err(e),
                None => if escrow.status != EscrowStatus::Released {
                    Err(Rejection::SessionNotReleased)
                } else {
                    Ok(())
                },
            }),
            r is Err ==> final(self).reviews@ == old(self).reviews@ && final(self).rating_sum@
                == old(self).rating_sum@ && final(self).review_count@ == old(self).review_count@,
            r is Ok ==> {
                &&& final(self).reviews@ == old(self).reviews@.insert(
                    session_id,
                    ReviewRecord { session_id, mentor, learner, rating, timestamp: now, comment_hash },
                )
                &&& final(self).rating_sum@ == old(self).rating_sum@.insert(
                    mentor,
                    (old(self).sum_of(mentor) + rating) as u32,
                )
                &&& final(self).review_count@ == old(self).review_count@.insert(
                    mentor,
                    (old(self).count_of(mentor) + 1) as u32,
                )
            },
            old(self).ratings_in_range() ==> final(self).ratings_in_range(),
            old(self).totals_match_history() ==> final(self).totals_match_history(),
            final(self).history@ == (if r is Ok {
                old(self).history@.push(
                    ReviewRecord { session_id, mentor, learner, rating, timestamp: now, comment_hash },
                )
            } else {
                old(self).history@
            }),
            final(self).escrow_contract == old(self).escrow_contract,
    {
        self.prepare_review(session_id, rating)?;
        if escrow.status != EscrowStatus::Released {
            return Err(Rejection::SessionNotReleased);
        }
        let record = ReviewRecord { session_id, mentor, learner, rating, timestamp: now, comment_hash };
        self.reviews.insert(session_id, record);
        let current_sum = Self::read_u32(&self.rating_sum, mentor);
        let current_count = Self::read_u32(&self.review_count, mentor);
        self.rating_sum.insert(mentor, current_sum + rating);
        self.review_count.insert(mentor, current_count + 1);
        proof {
            self.history@ = self.history@.push(record);
            let h = self.history@;
            assert(h.drop_last() =~= old(self).history@);
            if old(self).totals_match_history() {
                assert forall|m: AccountId|
                    #![trigger self.sum_of(m)]
                    #![trigger self.count_of(m)]
                    self.sum_of(m) == rating_total(h, m) && self.count_of(m) == review_total(h, m) by {
                    assert(old(self).sum_of(m) == rating_total(old(self).history@, m));
                    assert(old(self).count_of(m) == review_total(old(self).history@, m));
                }
            }
            if old(self).ratings_in_range() {
                assert forall|m: AccountId|
                    #![trigger self.sum_of(m)]
                    #![trigger self.count_of(m)]
                    self.count_of(m) <= self.sum_of(m) <= 5 * self.count_of(m) by {
                    assert(old(self).count_of(m) <= old(self).sum_of(m) <= 5 * old(self).count_of(m));
                }
            }
        }
        Ok(())
    }

    /// `(average rating * 100, review count)` for `mentor`; `(0, 0)` when
    /// the mentor has no reviews.
    pub fn get_mentor_rating(&self, mentor: AccountId) -> (r: (u32, u32))
        requires
            self.sum_of(mentor) * 100 <= u32::MAX,
        ensures
            r == (if self.count_of(mentor) == 0 {
                (0u32, 0u32)
            } else {
                (
                    ((self.sum_of(mentor) * 100) / (self.count_of(mentor) as int)) as u32,
                    self.count_of(mentor),
                )
            }),
            self.ratings_in_range() && self.count_of(mentor) > 0 ==> 100 <= r.0 <= 500,
    {
        proof {
            if self.ratings_in_range() && self.count_of(mentor) > 0 {
                lemma_average_bounds(self.sum_of(mentor) as int, self.count_of(mentor) as int);
            }
        }
        let sum = Self::read_u32(&self.rating_sum, mentor);
        let count = Self::read_u32(&self.review_count, mentor);
        if count == 0 {
            return (0, 0);
        }
        ((sum * 100) / count, count)
    }

    /// The review recorded for `session_id`.
    pub fn get_review(&self, session_id: SymbolId) -> (r: Result<ReviewRecord, Rejection>)
        ensures
            self.reviews@.contains_key(session_id) ==> r == Ok::<ReviewRecord, Rejection>(
                self.reviews@[session_id],
            ),
            !self.reviews@.contains_key(session_id) ==> r == Err::<ReviewRecord, Rejection>(
                Rejection::ReviewNotFound,
            ),
    {
        match self.reviews.get(&session_id) {
            Some(rec) => Ok(*rec),
            None => Err(Rejection::ReviewNotFound),
        }
    }
}

proof fn lemma_average_bounds(sum: int, count: int)
    requires
        0 < count <= sum <= 5 * count,
    ensures
        100 <= (sum * 100) / count <= 500,
{
    assert(count * 100 <= sum * 100 <= count * 500) by (nonlinear_arith)
        requires
            0 < count <= sum <= 5 * count,
    ;
    vstd::arithmetic::div_mod::lemma_div_is_ordered(count * 100, sum * 100, count);
    vstd::arithmetic::div_mod::lemma_div_is_ordered(sum * 100, count * 500, count);
    vstd::arithmetic::div_mod::lemma_div_multiples_vanish(100, count);
    vstd::arithmetic::div_mod::lemma_div_multiples_vanish(500, count);
}

} // verus!
