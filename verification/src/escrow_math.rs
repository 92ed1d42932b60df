//! The escrow's settlement arithmetic: platform fee, dispute split and the
//! auto-release deadline, each reporting overflow as `None`.
use vstd::prelude::*;

use crate::arith::trunc_div;

verus! {

/// Platform fee and net amount of a release, when every step fits `i128`.
pub open spec fn fee_outcome(amount: i128, fee_bps: u32) -> Option<(i128, i128)> {
    let product = amount * fee_bps;
    if product < i128::MIN || product > i128::MAX {
        None
    } else {
        let fee = trunc_div(product, 10_000);
        let net = amount - fee;
        if net < i128::MIN || net > i128::MAX {
            None
        } else {
            Some((fee as i128, net as i128))
        }
    }
}

/// Mentor and learner shares of a dispute split, when every step fits.
pub open spec fn split_outcome(amount: i128, mentor_pct: u32) -> Option<(i128, i128)> {
    let product = amount * mentor_pct;
    if product < i128::MIN || product > i128::MAX {
        None
    } else {
        let mentor = trunc_div(product, 100);
        let learner = amount - mentor;
        if learner < i128::MIN || learner > i128::MAX {
            None
        } else {
            Some((mentor as i128, learner as i128))
        }
    }
}

/// Release fee calculation: `(platform_fee, net_amount)`.
pub fn calc_fee(amount: i128, fee_bps: u32) -> (r: Option<(i128, i128)>)
    ensures
        r == fee_outcome(amount, fee_bps),
{
    let fee = match amount.checked_mul(fee_bps as i128) {
        Some(p) => match p.checked_div(10_000) {
            Some(q) => q,
            None => return None,
        },
        None => return None,
    };
    let net = match amount.checked_sub(fee) {
        Some(n) => n,
        None => return None,
    };
    Some((fee, net))
}

/// Dispute split calculation: `(mentor_amount, learner_amount)`.
pub fn calc_split(amount: i128, mentor_pct: u32) -> (r: Option<(i128, i128)>)
    ensures
        r == split_outcome(amount, mentor_pct),
{
    let mentor = match amount.checked_mul(mentor_pct as i128) {
        Some(p) => match p.checked_div(100) {
            Some(q) => q,
            None => return None,
        },
        None => return None,
    };
    let learner = match amount.checked_sub(mentor) {
        Some(l) => l,
        None => return None,
    };
    Some((mentor, learner))
}

/// The time after which an escrow may be released automatically.
pub fn calc_release_after(session_end_time: u64, auto_release_delay: u64) -> (r: Option<u64>)
    ensures
        r == (if session_end_time + auto_release_delay > u64::MAX {
            None
        } else {
            Some((session_end_time + auto_release_delay) as u64)
        }),
{
    session_end_time.checked_add(auto_release_delay)
}

proof fn lemma_share_bounds(amount: int, rate: int, scale: int)
    requires
        amount >= 1,
        0 <= rate <= scale,
        scale > 0,
    ensures
        0 <= (amount * rate) / scale <= amount,
        rate == 0 ==> (amount * rate) / scale == 0,
        rate == scale ==> (amount * rate) / scale == amount,
        amount == 1 && rate < scale ==> (amount * rate) / scale == 0,
{
    assert(0 <= amount * rate <= amount * scale) by (nonlinear_arith)
        requires
            amount >= 1,
            0 <= rate <= scale,
    ;
    assert((amount * scale) / scale == amount) by (nonlinear_arith)
        requires
            scale > 0,
    ;
    assert(0 <= (amount * rate) / scale <= (amount * scale) / scale) by (nonlinear_arith)
        requires
            0 <= amount * rate <= amount * scale,
            scale > 0,
    ;
    if amount == 1 && rate < scale {
        assert((1 * rate) / scale == 0) by (nonlinear_arith)
            requires
                0 <= rate < scale,
        ;
    }
}

/// For a positive amount and a rate of at most 100%, the fee calculation
/// fails only when `amount * fee_bps` overflows; otherwise the fee lies in
/// `[0, amount]`, fee and net add up to the amount, a zero rate charges no
/// fee and an amount of one unit pays no fee below a 100% rate.
pub proof fn lemma_fee_conserves_amount(amount: i128, fee_bps: u32)
    requires
        amount >= 1,
        fee_bps <= 10_000,
    ensures
        fee_outcome(amount, fee_bps) is None <==> amount * fee_bps > i128::MAX,
        fee_outcome(amount, fee_bps) matches Some((fee, net)) ==> {
            &&& 0 <= fee <= amount
            &&& net >= 0
            &&& fee + net == amount
            &&& fee_bps == 0 ==> fee == 0 && net == amount
            &&& amount == 1 && fee_bps < 10_000 ==> fee == 0 && net == 1
        },
{
    assert(amount * fee_bps >= 0) by (nonlinear_arith)
        requires
            amount >= 1,
    ;
    if amount * fee_bps <= i128::MAX {
        lemma_share_bounds(amount as int, fee_bps as int, 10_000);
    }
}

/// For a positive amount and a percentage of at most 100, the split fails
/// only when `amount * mentor_pct` overflows; otherwise both shares are
/// non-negative, they add up to the amount, and the 0% and 100% splits give
/// everything to one side.
pub proof fn lemma_split_conserves_amount(amount: i128, mentor_pct: u32)
    requires
        amount >= 1,
        mentor_pct <= 100,
    ensures
        split_outcome(amount, mentor_pct) is None <==> amount * mentor_pct > i128::MAX,
        split_outcome(amount, mentor_pct) matches Some((mentor, learner)) ==> {
            &&& mentor >= 0
            &&& learner >= 0
            &&& mentor + learner == amount
            &&& mentor_pct == 100 ==> mentor == amount && learner == 0
            &&& mentor_pct == 0 ==> mentor == 0 && learner == amount
        },
{
    assert(amount * mentor_pct >= 0) by (nonlinear_arith)
        requires
            amount >= 1,
    ;
    if amount * mentor_pct <= i128::MAX {
        lemma_share_bounds(amount as int, mentor_pct as int, 100);
    }
}

} // verus!
