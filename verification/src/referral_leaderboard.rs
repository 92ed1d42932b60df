//! Referral leaderboard: the referral contract reports each referrer's
//! running count, and the board keeps the fifty best referrers ranked by
//! count, highest first.  A referrer's rank decides its reward multiplier.
use vstd::prelude::*;

use crate::ids::AccountId;

verus! {

/// A referrer and its referral count.
pub type Entry = (AccountId, u32);

/// How many referrers the board keeps.
pub const MAX_ENTRIES: usize = 50;

/// The payload of the `("Leaderboard", "Updated")` event.
#[derive(Clone, Debug, PartialEq, Eq)]
pub struct LeaderboardUpdatedEventData {
    pub top_three: Vec<AccountId>,
}

#[derive(Copy, Clone, Debug, PartialEq, Eq, Structural)]
pub enum Rejection {
    AlreadyInitialized,
    NotInitialized,
    Unauthorized,
}

impl Rejection {
    /// The message with which the contract aborts.
    pub fn message(&self) -> (m: &'static str)
        ensures
            m == (match *self {
                Rejection::AlreadyInitialized => "Already initialized",
                Rejection::NotInitialized => "Not initialized",
                Rejection::Unauthorized => "Unauthorized",
            }),
    {
        match self {
            Rejection::AlreadyInitialized => "Already initialized",
            Rejection::NotInitialized => "Not initialized",
            Rejection::Unauthorized => "Unauthorized",
        }
    }
}

/// Counts never increase from one entry to the next.
pub open spec fn ranked(s: Seq<Entry>) -> bool {
    forall|i: int, j: int| 0 <= i < j < s.len() ==> #[trigger] s[i].1 >= #[trigger] s[j].1
}

/// No referrer appears twice.
pub open spec fn distinct_referrers(s: Seq<Entry>) -> bool {
    forall|i: int, j: int| 0 <= i < j < s.len() ==> #[trigger] s[i].0 != #[trigger] s[j].0
}

/// Whether an entry belongs to someone other than `referrer`.
pub open spec fn not_referrer(referrer: AccountId) -> spec_fn(Entry) -> bool {
    |e: Entry| e.0 != referrer
}

/// `s` without the entries of `referrer`.
pub open spec fn without_referrer(s: Seq<Entry>, referrer: AccountId) -> Seq<Entry> {
    s.filter(not_referrer(referrer))
}

/// `e` placed into `s` after every entry whose count is at least `e`'s:
/// a stable sort by descending count of `s` followed by `e`, when `s` is
/// itself ranked.
pub open spec fn insert_ranked(s: Seq<Entry>, e: Entry) -> Seq<Entry>
    decreases s.len(),
{
    if s.len() == 0 {
        seq![e]
    } else if s[0].1 >= e.1 {
        seq![s[0]] + insert_ranked(s.drop_first(), e)
    } else {
        seq![e] + s
    }
}

/// The board after `referrer` reports `count`: its old entry is dropped,
/// the new one is ranked in, and only the first fifty are kept.
pub open spec fn record_effect(board: Seq<Entry>, referrer: AccountId, count: u32) -> Seq<Entry> {
    let t = insert_ranked(without_referrer(board, referrer), (referrer, count));
    if t.len() > MAX_ENTRIES {
        t.take(MAX_ENTRIES as int)
    } else {
        t
    }
}

/// The referrers of the first (at most) three entries.
pub open spec fn top_three_of(board: Seq<Entry>) -> Seq<AccountId> {
    let n: int = if board.len() < 3 { board.len() as int } else { 3 };
    board.take(n).map_values(|e: Entry| e.0)
}

/// `rank` (1-based) is the first position of `referrer` on `board`.
pub open spec fn is_rank_of(board: Seq<Entry>, referrer: AccountId, rank: int) -> bool {
    &&& 1 <= rank <= board.len()
    &&& board[rank - 1].0 == referrer
    &&& forall|j: int| 0 <= j < rank - 1 ==> #[trigger] board[j].0 != referrer
}

/// `referrer` is not on `board`.
pub open spec fn absent(board: Seq<Entry>, referrer: AccountId) -> bool {
    forall|j: int| 0 <= j < board.len() ==> #[trigger] board[j].0 != referrer
}

/// The 1-based rank of `referrer` on `board`, if it is there.
pub open spec fn rank_in(board: Seq<Entry>, referrer: AccountId) -> Option<int> {
    if exists|k: int| is_rank_of(board, referrer, k) {
        Some(choose|k: int| is_rank_of(board, referrer, k))
    } else {
        None
    }
}

/// The reward multiplier, in basis points, of a rank.
pub open spec fn multiplier_for(rank: Option<int>) -> u32 {
    match rank {
        Some(r) => if r <= 3 {
            20000
        } else if r <= 10 {
            15000
        } else if r <= 50 {
            12500
        } else {
            10000
        },
        None => 10000,
    }
}

/// Filtering keeps a sequence ranked and its referrers distinct.
proof fn lemma_filter_keeps_order(s: Seq<Entry>, referrer: AccountId)
    requires
        ranked(s),
        distinct_referrers(s),
    ensures
        ranked(without_referrer(s, referrer)),
        distinct_referrers(without_referrer(s, referrer)),
        absent(without_referrer(s, referrer), referrer),
        without_referrer(s, referrer).len() <= s.len(),
    decreases s.len(),
{
    let pred = not_referrer(referrer);
    reveal_with_fuel(Seq::<_>::filter, 1);
    if s.len() > 0 {
        let init = s.drop_last();
        assert(ranked(init));
        assert(distinct_referrers(init));
        lemma_filter_keeps_order(init, referrer);
        let sub = without_referrer(init, referrer);
        assert(without_referrer(s, referrer) == if pred(s.last()) {
            sub.push(s.last())
        } else {
            sub
        });
        if pred(s.last()) {
            let t = sub.push(s.last());
            assert forall|i: int| 0 <= i < sub.len() implies sub[i].1 >= s.last().1 && sub[i].0
                != s.last().0 by {
                init.lemma_filter_contains_rev(pred, sub[i]);
                let j = choose|j: int| 0 <= j < init.len() && init[j] == sub[i];
                assert(s[j] == init[j]);
                assert(s[s.len() - 1] == s.last());
            }
            assert(ranked(t)) by {
                assert forall|i: int, j: int| 0 <= i < j < t.len() implies #[trigger] t[i].1
                    >= #[trigger] t[j].1 by {
                    if j == t.len() - 1 {
                        assert(t[i] == sub[i]);
                    } else {
                        assert(t[i] == sub[i] && t[j] == sub[j]);
                    }
                }
            }
            assert(distinct_referrers(t)) by {
                assert forall|i: int, j: int| 0 <= i < j < t.len() implies #[trigger] t[i].0
                    != #[trigger] t[j].0 by {
                    if j == t.len() - 1 {
                        assert(t[i] == sub[i]);
                    } else {
                        assert(t[i] == sub[i] && t[j] == sub[j]);
                    }
                }
            }
            assert(absent(t, referrer)) by {
                assert forall|j: int| 0 <= j < t.len() implies #[trigger] t[j].0 != referrer by {
                    if j < sub.len() {
                        assert(t[j] == sub[j]);
                    }
                }
            }
        }
    }
}

/// Ranking `e` in at the first entry whose count is below `e`'s is an
/// insertion at that index.
proof fn lemma_insert_ranked_at(s: Seq<Entry>, e: Entry, k: int)
    requires
        0 <= k <= s.len(),
        forall|j: int| 0 <= j < k ==> #[trigger] s[j].1 >= e.1,
        k < s.len() ==> s[k].1 < e.1,
    ensures
        insert_ranked(s, e) == s.insert(k, e),
    decreases s.len(),
{
    if s.len() == 0 {
        assert(s.insert(k, e) =~= seq![e]);
    } else if k == 0 {
        assert(s.insert(k, e) =~= seq![e] + s);
    } else {
        let rest = s.drop_first();
        assert forall|j: int| 0 <= j < k - 1 implies #[trigger] rest[j].1 >= e.1 by {
            assert(rest[j] == s[j + 1]);
        }
        lemma_insert_ranked_at(rest, e, k - 1);
        assert(s.insert(k, e) =~= seq![s[0]] + rest.insert(k - 1, e));
    }
}

/// The referral leaderboard's stored state.
pub struct ReferralLeaderboardContract {
    referral_contract: Option<AccountId>,
    leaderboard: Vec<Entry>,
}

impl ReferralLeaderboardContract {

    /// The referral contract that may report counts, once initialized.
    pub closed spec fn referral_contract_of(&self) -> Option<AccountId> {
        self.referral_contract
    }

    /// The board, best referrer first.
    pub closed spec fn board(&self) -> Seq<Entry> {
        self.leaderboard@
    }

    /// The board is ranked by count, holds each referrer at most once and
    /// never more than fifty entries.  Every operation keeps this.
    pub open spec fn well_formed(&self) -> bool {
        &&& ranked(self.board())
        &&& distinct_referrers(self.board())
        &&& self.board().len() <= MAX_ENTRIES
    }

    /// A board that has not been initialized.
    pub fn new() -> (s: Self)
        ensures
            s.well_formed(),
            s.referral_contract_of() is None,
            s.board() == Seq::<Entry>::empty(),
    {
        ReferralLeaderboardContract { referral_contract: None, leaderboard: Vec::new() }
    }

    /// Name the referral contract whose reports the board accepts.
    pub fn initialize(&mut self, referral_contract: AccountId) -> (r: Result<(), Rejection>)
        requires
            old(self).well_formed(),
        ensures
            final(self).well_formed(),
            old(self).referral_contract_of() is Some <==> r == Err::<(), Rejection>(
                Rejection::AlreadyInitialized,
            ),
            old(self).referral_contract_of() is None ==> r is Ok,
            r is Ok ==> final(self).referral_contract_of() == Some(referral_contract),
            r is Err ==> final(self).referral_contract_of() == old(self).referral_contract_of(),
            final(self).board() == old(self).board(),
    {
        if self.referral_contract.is_some() {
            return Err(Rejection::AlreadyInitialized);
        }
        self.referral_contract = Some(referral_contract);
        Ok(())
    }

    fn without(board: &Vec<Entry>, referrer: AccountId) -> (out: Vec<Entry>)
        ensures
            out@ == without_referrer(board@, referrer),
    {
        let mut out: Vec<Entry> = Vec::new();
        let mut i: usize = 0;
        assert(board@.take(0) =~= Seq::<Entry>::empty());
        while i < board.len()
            invariant
                i <= board@.len(),
                out@ == without_referrer(board@.take(i as int), referrer),
            decreases board.len() - i,
        {
            proof {
                reveal_with_fuel(Seq::<_>::filter, 1);
                assert(board@.take(i + 1).drop_last() =~= board@.take(i as int));
                assert(board@.take(i + 1).last() == board@[i as int]);
            }
            if board[i].0 != referrer {
                out.push(board[i]);
            }
            i = i + 1;
        }
        assert(board@.take(i as int) =~= board@);
        out
    }

    /// Record `referrer`'s new referral count, reported by the referral
    /// contract (`invoker`), and give back the event payload.
    pub fn record_referral(&mut self, invoker: AccountId, referrer: AccountId, referral_count: u32) -> (r: Result<LeaderboardUpdatedEventData, Rejection>)
        requires
            old(self).well_formed(),
        ensures
            final(self).well_formed(),
            old(self).referral_contract_of() is None ==> r == Err::<
                LeaderboardUpdatedEventData,
                Rejection,
            >(Rejection::NotInitialized),
            old(self).referral_contract_of() is Some && old(self).referral_contract_of()
                != Some(invoker) ==> r == Err::<LeaderboardUpdatedEventData, Rejection>(
                Rejection::Unauthorized,
            ),
            r is Err ==> final(self).board() == old(self).board(),
            old(self).referral_contract_of() == Some(invoker) ==> r is Ok,
            r is Ok ==> final(self).board() == record_effect(
                old(self).board(),
                referrer,
                referral_count,
            ) && r->Ok_0.top_three@ == top_three_of(final(self).board()),
            final(self).referral_contract_of() == old(self).referral_contract_of(),
    {
        match self.referral_contract {
            None => { return Err(Rejection::NotInitialized); },
            Some(rc) => {
                if rc != invoker {
                    return Err(Rejection::Unauthorized);
                }
            },
        }
        let ghost old_board = self.leaderboard@;
        let mut board = Self::without(&self.leaderboard, referrer);
        proof {
            lemma_filter_keeps_order(old_board, referrer);
        }
        let ghost filtered = board@;
        let e: Entry = (referrer, referral_count);
        let mut k: usize = 0;
        while k < board.len() && board[k].1 >= referral_count
            invariant
                board@ == filtered,
                k <= board@.len(),
                forall|j: int| 0 <= j < k ==> #[trigger] board@[j].1 >= referral_count,
            decreases board.len() - k,
        {
            k = k + 1;
        }
        proof {
            lemma_insert_ranked_at(filtered, e, k as int);
            filtered.insert_ensures(k as int, e);
        }
        board.insert(k, e);
        let ghost inserted = board@;
        proof {
            assert(ranked(inserted)) by {
                assert forall|i: int, j: int| 0 <= i < j < inserted.len() implies #[trigger] inserted[i].1
                    >= #[trigger] inserted[j].1 by {
                    if j < k {
                    } else if j == k {
                    } else if i < k {
                        assert(inserted[j] == filtered[j - 1]);
                    } else if i == k {
                        assert(inserted[j] == filtered[j - 1]);
                        assert(filtered[k as int].1 >= filtered[j - 1].1);
                    } else {
                        assert(inserted[i] == filtered[i - 1]);
                        assert(inserted[j] == filtered[j - 1]);
                    }
                }
            }
            assert(distinct_referrers(inserted)) by {
                assert forall|i: int, j: int| 0 <= i < j < inserted.len() implies #[trigger] inserted[i].0
                    != #[trigger] inserted[j].0 by {
                    if j < k {
                    } else if j == k {
                        assert(filtered[i].0 != referrer);
                    } else if i < k {
                        assert(inserted[j] == filtered[j - 1]);
                    } else if i == k {
                        assert(inserted[j] == filtered[j - 1]);
                        assert(filtered[j - 1].0 != referrer);
                    } else {
                        assert(inserted[i] == filtered[i - 1]);
                        assert(inserted[j] == filtered[j - 1]);
                    }
                }
            }
        }
        board.truncate(MAX_ENTRIES);
        proof {
            if inserted.len() > MAX_ENTRIES {
                assert(board@ =~= inserted.take(MAX_ENTRIES as int));
            } else {
                assert(board@ =~= inserted);
            }
        }
        self.leaderboard = board;
        let top_three = Self::top_three(&self.leaderboard);
        Ok(LeaderboardUpdatedEventData { top_three })
    }

    fn top_three(board: &Vec<Entry>) -> (out: Vec<AccountId>)
        ensures
            out@ == top_three_of(board@),
    {
        let n: usize = if board.len() < 3 {
            board.len()
        } else {
            3
        };
        let mut out: Vec<AccountId> = Vec::new();
        let mut i: usize = 0;
        while i < n
            invariant
                n <= board@.len(),
                n <= 3,
                i <= n,
                out@ == board@.take(i as int).map_values(|e: Entry| e.0),
            decreases n - i,
        {
            out.push(board[i].0);
            i = i + 1;
            assert(out@ =~= board@.take(i as int).map_values(|e: Entry| e.0));
        }
        assert(out@ =~= top_three_of(board@));
        out
    }

    /// The whole board, best referrer first.
    pub fn get_leaderboard(&self) -> (out: Vec<Entry>)
        ensures
            out@ == self.board(),
    {
        let mut out: Vec<Entry> = Vec::new();
        let mut i: usize = 0;
        while i < self.leaderboard.len()
            invariant
                i <= self.leaderboard@.len(),
                out@ == self.leaderboard@.take(i as int),
            decreases self.leaderboard.len() - i,
        {
            out.push(self.leaderboard[i]);
            i = i + 1;
            assert(out@ =~= self.leaderboard@.take(i as int));
        }
        assert(out@ =~= self.leaderboard@);
        out
    }

    /// The 1-based rank of `referrer`, if it is on the board.
    pub fn get_rank(&self, referrer: AccountId) -> (rank: Option<u32>)
        requires
            self.well_formed(),
        ensures
            match rank {
                Some(k) => is_rank_of(self.board(), referrer, k as int),
                None => absent(self.board(), referrer),
            },
            rank_in(self.board(), referrer) == match rank {
                Some(k) => Some(k as int),
                None => None::<int>,
            },
    {
        let mut i: usize = 0;
        while i < self.leaderboard.len()
            invariant
                i <= self.leaderboard@.len(),
                self.leaderboard@.len() <= MAX_ENTRIES,
                forall|j: int| 0 <= j < i ==> #[trigger] self.leaderboard@[j].0 != referrer,
            decreases self.leaderboard.len() - i,
        {
            if self.leaderboard[i].0 == referrer {
                let rank: u32 = (i + 1) as u32;
                proof {
                    let b = self.leaderboard@;
                    assert(is_rank_of(b, referrer, rank as int));
                    let c = choose|k: int| is_rank_of(b, referrer, k);
                    lemma_rank_is_unique(b, referrer, c, rank as int);
                }
                return Some(rank);
            }
            i = i + 1;
        }
        proof {
            if exists|k: int| is_rank_of(self.leaderboard@, referrer, k) {
                let c = choose|k: int| is_rank_of(self.leaderboard@, referrer, k);
                assert(self.leaderboard@[c - 1].0 == referrer);
            }
        }
        None
    }

    /// The reward multiplier, in basis points, that `referrer`'s rank earns.
    pub fn get_multiplier(&self, referrer: AccountId) -> (m: u32)
        requires
            self.well_formed(),
        ensures
            m == multiplier_for(rank_in(self.board(), referrer)),
    {
        let rank = self.get_rank(referrer);
        let m: u32 = match rank {
            Some(r) => if r <= 3 {
                20000
            } else if r <= 10 {
                15000
            } else if r <= 50 {
                12500
            } else {
                10000
            },
            None => 10000,
        };
        m
    }
}

/// The rank of a referrer is unique: it is decided by the board alone.
pub proof fn lemma_rank_is_unique(board: Seq<Entry>, referrer: AccountId, a: int, b: int)
    requires
        is_rank_of(board, referrer, a),
        is_rank_of(board, referrer, b),
    ensures
        a == b,
{
    if a < b {
        assert(board[a - 1].0 != referrer);
    } else if b < a {
        assert(board[b - 1].0 != referrer);
    }
}

/// Ranking an entry in neither loses nor duplicates any entry: the result
/// holds exactly the entries of `s` and `e`.
pub proof fn lemma_insert_ranked_rearranges(s: Seq<Entry>, e: Entry)
    ensures
        insert_ranked(s, e).to_multiset() =~= s.to_multiset().insert(e),
    decreases s.len(),
{
    broadcast use vstd::multiset::group_multiset_axioms;
    broadcast use vstd::seq_lib::group_to_multiset_ensures;

    if s.len() == 0 {
        assert(seq![e] =~= Seq::<Entry>::empty().push(e));
        assert(s =~= Seq::<Entry>::empty());
    } else {
        let head = seq![s[0]];
        let rest = s.drop_first();
        assert(head + rest =~= s);
        vstd::seq_lib::lemma_multiset_commutative(head, rest);
        if s[0].1 >= e.1 {
            lemma_insert_ranked_rearranges(rest, e);
            vstd::seq_lib::lemma_multiset_commutative(head, insert_ranked(rest, e));
        } else {
            vstd::seq_lib::lemma_multiset_commutative(seq![e], s);
            assert(seq![e] =~= Seq::<Entry>::empty().push(e));
        }
    }
}

} // verus!
