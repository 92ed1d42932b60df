//! Regulatory reporting: the escrow contract records every settled
//! transaction in the history of both parties, and regulators query monthly
//! volumes, large transactions and cross-border volumes per user.
use std::collections::HashMap;
use vstd::prelude::*;

use crate::ids::{AccountId, SymbolId};

verus! {

broadcast use vstd::std_specs::hash::group_hash_axioms;

/// Transactions above this USD amount are flagged as large.
pub const LARGE_TX_THRESHOLD: i128 = 10_000;

#[derive(Copy, Clone, Debug, PartialEq, Eq, Structural)]
pub struct TxRecord {
    pub sender: AccountId,
    pub receiver: AccountId,
    pub amount_usd: i128,
    pub asset: SymbolId,
    pub cross_border: bool,
    pub large_transaction: bool,
    pub timestamp: u64,
    pub year: u32,
    pub month: u32,
}

#[derive(Copy, Clone, Debug, PartialEq, Eq, Structural)]
pub enum Rejection {
    AlreadyInitialized,
    NotInitialized,
}

impl Rejection {
    /// The message with which the contract aborts.
    pub fn message(&self) -> (m: &'static str)
        ensures
            m == (match *self {
                Rejection::AlreadyInitialized => "already initialized",
                Rejection::NotInitialized => "not initialized",
            }),
    {
        match self {
            Rejection::AlreadyInitialized => "already initialized",
            Rejection::NotInitialized => "not initialized",
        }
    }
}

/// The (approximate) calendar year and month of a ledger timestamp:
/// 365-day years and 30-day months, the thirteenth month folded into the
/// twelfth.
pub open spec fn year_month_of(ts: u64) -> (u32, u32) {
    let days = ts / 86400;
    let year = 1970 + ((days / 365) as u32);
    let month = (days % 365) / 30 + 1;
    (year as u32, if month > 12 {
        12
    } else {
        month as u32
    })
}

/// The year of `ts` fits in a `u32`.
pub open spec fn year_fits(ts: u64) -> bool {
    1970 + ((ts / 86400 / 365) as u32) <= u32::MAX
}

/// Bucket a timestamp into its (year, month).
pub fn ts_to_year_month(ts: u64) -> (ym: (u32, u32))
    requires
        year_fits(ts),
    ensures
        ym == year_month_of(ts),
{
    let days = ts / 86400;
    let years: u32 = (days / 365) as u32;
    let year = 1970u32 + years;
    let day_of_year = (days % 365) as u32;
    let month = (day_of_year / 30) + 1;
    (year, if month > 12 {
        12
    } else {
        month
    })
}

/// Whether a record counts toward a (cross-border, when `cross_only`)
/// volume of the given month.
pub open spec fn counted(r: TxRecord, year: u32, month: u32, cross_only: bool) -> bool {
    r.year == year && r.month == month && (!cross_only || r.cross_border)
}

/// The summed USD amount of the counted records.
pub open spec fn volume(s: Seq<TxRecord>, year: u32, month: u32, cross_only: bool) -> int
    decreases s.len(),
{
    if s.len() == 0 {
        0
    } else {
        volume(s.drop_last(), year, month, cross_only) + if counted(
            s.last(),
            year,
            month,
            cross_only,
        ) {
            s.last().amount_usd as int
        } else {
            0
        }
    }
}

/// Every running total of the volume fits in an `i128`.
pub open spec fn volume_fits(s: Seq<TxRecord>, year: u32, month: u32, cross_only: bool) -> bool {
    forall|i: int|
        0 <= i <= s.len() ==> i128::MIN <= #[trigger] volume(s.take(i), year, month, cross_only)
            <= i128::MAX
}

/// A large transaction of the given month.
pub open spec fn large_in_month(year: u32, month: u32) -> spec_fn(TxRecord) -> bool {
    |r: TxRecord| r.year == year && r.month == month && r.large_transaction
}

fn sum_volume(records: &Vec<TxRecord>, year: u32, month: u32, cross_only: bool) -> (v: i128)
    requires
        volume_fits(records@, year, month, cross_only),
    ensures
        v == volume(records@, year, month, cross_only),
{
    let mut acc: i128 = 0;
    let mut i: usize = 0;
    assert(records@.take(0) =~= Seq::<TxRecord>::empty());
    while i < records.len()
        invariant
            i <= records@.len(),
            volume_fits(records@, year, month, cross_only),
            acc == volume(records@.take(i as int), year, month, cross_only),
        decreases records.len() - i,
    {
        let r = records[i];
        proof {
            assert(records@.take(i + 1).drop_last() =~= records@.take(i as int));
            assert(records@.take(i + 1).last() == r);
            assert(i128::MIN <= volume(records@.take(i + 1), year, month, cross_only) <= i128::MAX);
        }
        if r.year == year && r.month == month && (!cross_only || r.cross_border) {
            acc = acc + r.amount_usd;
        }
        i = i + 1;
    }
    assert(records@.take(i as int) =~= records@);
    acc
}

fn copy_records(records: &Vec<TxRecord>) -> (out: Vec<TxRecord>)
    ensures
        out@ == records@,
{
    let mut out: Vec<TxRecord> = Vec::new();
    let mut i: usize = 0;
    while i < records.len()
        invariant
            i <= records@.len(),
            out@ == records@.take(i as int),
        decreases records.len() - i,
    {
        out.push(records[i]);
        i = i + 1;
        assert(out@ =~= records@.take(i as int));
    }
    assert(out@ =~= records@);
    out
}

/// The regulatory-reporting contract's stored state.
pub struct RegulatoryReporting {
    pub admin: Option<AccountId>,
    pub escrow_contract: Option<AccountId>,
    /// Every record in which a user is sender or receiver, oldest first.
    pub user_records: HashMap<AccountId, Vec<TxRecord>>,
}

impl RegulatoryReporting {
    /// The history of `user`.
    pub open spec fn records_of(&self, user: AccountId) -> Seq<TxRecord> {
        if self.user_records@.contains_key(user) {
            self.user_records@[user]@
        } else {
            Seq::empty()
        }
    }

    /// A contract that has not been initialized.
    pub fn new() -> (s: Self)
        ensures
            s.admin is None,
            s.escrow_contract is None,
            s.user_records@ == Map::<AccountId, Vec<TxRecord>>::empty(),
    {
        RegulatoryReporting { admin: None, escrow_contract: None, user_records: HashMap::new() }
    }

    pub fn initialize(&mut self, admin: AccountId, escrow_contract: AccountId) -> (r: Result<(), Rejection>)
        ensures
            r == (if old(self).admin is Some {
                Err(Rejection::AlreadyInitialized)
            } else {
                Ok(())
            }),
            r is Ok ==> final(self).admin == Some(admin) && final(self).escrow_contract == Some(
                escrow_contract,
            ),
            r is Err ==> final(self).admin == old(self).admin && final(self).escrow_contract == old(self).escrow_contract,
            final(self).user_records@ == old(self).user_records@,
    {
        if self.admin.is_some() {
            return Err(Rejection::AlreadyInitialized);
        }
        self.admin = Some(admin);
        self.escrow_contract = Some(escrow_contract);
        Ok(())
    }

    fn load_records(&self, user: AccountId) -> (out: Vec<TxRecord>)
        ensures
            out@ == self.records_of(user),
    {
        match self.user_records.get(&user) {
            Some(v) => copy_records(v),
            None => Vec::new(),
        }
    }

    fn append_record(&mut self, user: AccountId, record: TxRecord)
        ensures
            forall|u: AccountId|
                #[trigger] final(self).records_of(u) == if u == user {
                    old(self).records_of(u).push(record)
                } else {
                    old(self).records_of(u)
                },
            final(self).admin == old(self).admin,
            final(self).escrow_contract == old(self).escrow_contract,
    {
        let mut records = match self.user_records.remove(&user) {
            Some(v) => v,
            None => Vec::new(),
        };
        records.push(record);
        self.user_records.insert(user, records);
    }

    /// Record a transaction settled by the escrow (whose authorization the
    /// host checks) at ledger time `now`, in the history of both parties.
    /// Returns the stored record, from which the host publishes the events.
    pub fn record_transaction(
        &mut self,
        sender: AccountId,
        receiver: AccountId,
        amount_usd: i128,
        asset: SymbolId,
        cross_border: bool,
        now: u64,
    ) -> (r: Result<TxRecord, Rejection>)
        requires
            year_fits(now),
        ensures
            old(self).escrow_contract is None <==> r == Err::<TxRecord, Rejection>(
                Rejection::NotInitialized,
            ),
            old(self).escrow_contract is Some ==> r is Ok,
            r is Ok ==> r->Ok_0 == (TxRecord {
                sender,
                receiver,
                amount_usd,
                asset,
                cross_border,
                large_transaction: amount_usd > LARGE_TX_THRESHOLD,
                timestamp: now,
                year: year_month_of(now).0,
                month: year_month_of(now).1,
            }),
            r is Ok ==> forall|u: AccountId|
                #[trigger] final(self).records_of(u) == if u == sender && u == receiver {
                    old(self).records_of(u).push(r->Ok_0).push(r->Ok_0)
                } else if u == sender || u == receiver {
                    old(self).records_of(u).push(r->Ok_0)
                } else {
                    old(self).records_of(u)
                },
            r is Err ==> final(self).user_records@ == old(self).user_records@,
            final(self).admin == old(self).admin,
            final(self).escrow_contract == old(self).escrow_contract,
    {
        if self.escrow_contract.is_none() {
            return Err(Rejection::NotInitialized);
        }
        let (year, month) = ts_to_year_month(now);
        let record = TxRecord {
            sender,
            receiver,
            amount_usd,
            asset,
            cross_border,
            large_transaction: amount_usd > LARGE_TX_THRESHOLD,
            timestamp: now,
            year,
            month,
        };
        let ghost before = *self;
        self.append_record(sender, record);
        let ghost middle = *self;
        self.append_record(receiver, record);
        proof {
            assert forall|u: AccountId| #[trigger] self.records_of(u) == if u == sender && u
                == receiver {
                before.records_of(u).push(record).push(record)
            } else if u == sender || u == receiver {
                before.records_of(u).push(record)
            } else {
                before.records_of(u)
            } by {
                assert(middle.records_of(u) == if u == sender {
                    before.records_of(u).push(record)
                } else {
                    before.records_of(u)
                });
            }
        }
        Ok(record)
    }

    /// The USD volume of `user` in a month.
    pub fn get_monthly_volume(&self, user: AccountId, year: u32, month: u32) -> (v: i128)
        requires
            volume_fits(self.records_of(user), year, month, false),
        ensures
            v == volume(self.records_of(user), year, month, false),
    {
        let records = self.load_records(user);
        sum_volume(&records, year, month, false)
    }

    /// The large transactions of `user` in a month, oldest first.
    pub fn get_large_transactions(&self, user: AccountId, year: u32, month: u32) -> (out: Vec<
        TxRecord,
    >)
        ensures
            out@ == self.records_of(user).filter(large_in_month(year, month)),
    {
        let records = self.load_records(user);
        let mut out: Vec<TxRecord> = Vec::new();
        let mut i: usize = 0;
        assert(records@.take(0) =~= Seq::<TxRecord>::empty());
        while i < records.len()
            invariant
                i <= records@.len(),
                out@ == records@.take(i as int).filter(large_in_month(year, month)),
            decreases records.len() - i,
        {
            proof {
                reveal_with_fuel(Seq::<_>::filter, 1);
                assert(records@.take(i + 1).drop_last() =~= records@.take(i as int));
                assert(records@.take(i + 1).last() == records@[i as int]);
            }
            let r = records[i];
            if r.year == year && r.month == month && r.large_transaction {
                out.push(r);
            }
            i = i + 1;
        }
        assert(records@.take(i as int) =~= records@);
        out
    }

    /// The cross-border USD volume of `user` in a month.
    pub fn get_cross_border_volume(&self, user: AccountId, year: u32, month: u32) -> (v: i128)
        requires
            volume_fits(self.records_of(user), year, month, true),
        ensures
            v == volume(self.records_of(user), year, month, true),
    {
        let records = self.load_records(user);
        sum_volume(&records, year, month, true)
    }

    /// Every record of `user` (the host checks the admin's authorization).
    pub fn get_all_records(&self, user: AccountId) -> (r: Result<Vec<TxRecord>, Rejection>)
        ensures
            self.admin is None <==> r is Err,
            r is Err ==> r->Err_0 == Rejection::NotInitialized,
            r is Ok ==> r->Ok_0@ == self.records_of(user),
    {
        if self.admin.is_none() {
            return Err(Rejection::NotInitialized);
        }
        Ok(self.load_records(user))
    }
}

/// How a month's volume grows as records are appended: a record adds its
/// USD amount to the volume of exactly its own year and month (for the
/// cross-border volume, only when it is cross-border) and leaves the volume
/// of every other month and year as it was; with no records the volume is 0.
pub proof fn lemma_volume_counts_own_month(
    s: Seq<TxRecord>,
    r: TxRecord,
    year: u32,
    month: u32,
    cross_only: bool,
)
    ensures
        volume(Seq::<TxRecord>::empty(), year, month, cross_only) == 0,
        r.year != year ==> volume(s.push(r), year, month, cross_only) == volume(
            s,
            year,
            month,
            cross_only,
        ),
        r.month != month ==> volume(s.push(r), year, month, cross_only) == volume(
            s,
            year,
            month,
            cross_only,
        ),
        cross_only && !r.cross_border ==> volume(s.push(r), year, month, cross_only) == volume(
            s,
            year,
            month,
            cross_only,
        ),
        r.year == year && r.month == month && (!cross_only || r.cross_border) ==> volume(
            s.push(r),
            year,
            month,
            cross_only,
        ) == volume(s, year, month, cross_only) + r.amount_usd,
{
    assert(s.push(r).drop_last() =~= s);
    assert(s.push(r).last() == r);
}

/// How a month's list of large transactions grows as records are appended:
/// a record joins the list of exactly its own year and month, at the end,
/// when it is flagged large, and no other list changes; with no records the
/// list is empty.
pub proof fn lemma_large_list_own_month(s: Seq<TxRecord>, r: TxRecord, year: u32, month: u32)
    ensures
        Seq::<TxRecord>::empty().filter(large_in_month(year, month)) == Seq::<TxRecord>::empty(),
        s.push(r).filter(large_in_month(year, month)) == (if r.year == year && r.month == month
            && r.large_transaction {
            s.filter(large_in_month(year, month)).push(r)
        } else {
            s.filter(large_in_month(year, month))
        }),
{
    reveal_with_fuel(Seq::<_>::filter, 1);
    assert(Seq::<TxRecord>::empty().filter(large_in_month(year, month)) =~= Seq::<TxRecord>::empty());
    s.lemma_filter_push(r, large_in_month(year, month));
}

/// Months run from 1 to 12, the year counts whole 365-day years since
/// 1970 (while that count fits in a `u32`), and a timestamp one 365-day
/// year later falls in the same month of the next year.
pub proof fn lemma_year_month_steps_by_year(ts: u64)
    ensures
        1 <= year_month_of(ts).1 <= 12,
        1970 + (ts as int) / 31_536_000int <= u32::MAX ==> year_month_of(ts).0 == 1970 + (ts as int)
            / 31_536_000int,
        ts + 31_536_000int <= u64::MAX && 1970 + (ts as int) / 31_536_000int + 1 <= u32::MAX
            ==> year_month_of((ts + 31_536_000int) as u64).0 == year_month_of(ts).0 + 1
            && year_month_of((ts + 31_536_000int) as u64).1 == year_month_of(ts).1,
{
    let t = ts as int;
    let days = t / 86400;
    vstd::arithmetic::div_mod::lemma_div_denominator(t, 86400, 365);
    assert(days / 365 == t / 31_536_000int);
    if t + 31_536_000int <= u64::MAX {
        let t2 = t + 31_536_000int;
        let ts2 = t2 as u64;
        vstd::arithmetic::div_mod::lemma_hoist_over_denominator(t, 365, 86400);
        assert(t2 / 86400 == days + 365);
        vstd::arithmetic::div_mod::lemma_div_plus_one(days, 365);
        vstd::arithmetic::div_mod::lemma_mod_add_multiples_vanish(days, 365);
        assert((days + 365) / 365 == days / 365 + 1);
        assert((days + 365) % 365 == days % 365);
        assert(ts2 / 86400 == days + 365);
    }
}

} // verus!
