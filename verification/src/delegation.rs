//! Vote delegation: token holders delegate their voting power, chains of
//! delegation are followed up to three hops, and cycles within that reach
//! are refused.
use std::collections::HashMap;
use vstd::prelude::*;

use crate::ids::AccountId;

verus! {

broadcast use vstd::std_specs::hash::group_hash_axioms;

/// How many hops of delegation are followed.
pub const MAX_DEPTH: u32 = 3;

#[derive(Copy, Clone, Debug, PartialEq, Eq, Structural)]
pub struct DelegatedEventData {
    pub delegator: AccountId,
    pub delegate: AccountId,
}

#[derive(Copy, Clone, Debug, PartialEq, Eq, Structural)]
pub struct UndelegatedEventData {
    pub delegator: AccountId,
}

#[derive(Copy, Clone, Debug, PartialEq, Eq, Structural)]
pub enum Rejection {
    AlreadyInitialized,
    SelfDelegation,
    CircularDelegation,
    TokenNotSet,
    Overflow,
}

impl Rejection {
    /// The message with which the contract aborts.
    pub fn message(&self) -> (m: &'static str)
        ensures
            m == (match *self {
                Rejection::AlreadyInitialized => "already initialized",
                Rejection::SelfDelegation => "cannot delegate to self",
                Rejection::CircularDelegation => "circular delegation",
                Rejection::TokenNotSet => "token not set",
                Rejection::Overflow => "overflow",
            }),
    {
        match self {
            Rejection::AlreadyInitialized => "already initialized",
            Rejection::SelfDelegation => "cannot delegate to self",
            Rejection::CircularDelegation => "circular delegation",
            Rejection::TokenNotSet => "token not set",
            Rejection::Overflow => "overflow",
        }
    }
}

/// The account `a` delegated to, if any.
pub open spec fn next_of(m: Map<AccountId, AccountId>, a: AccountId) -> Option<AccountId> {
    if m.contains_key(a) {
        Some(m[a])
    } else {
        None
    }
}

/// Where following delegations from `a` for at most `depth` hops ends.
pub open spec fn resolve(m: Map<AccountId, AccountId>, a: AccountId, depth: nat) -> AccountId
    decreases depth,
{
    if depth == 0 {
        a
    } else {
        match next_of(m, a) {
            Some(n) => resolve(m, n, (depth - 1) as nat),
            None => a,
        }
    }
}

/// Whether `target` is among the first `steps` accounts of the delegation
/// chain that starts at `from` (`from` itself included).
pub open spec fn reaches_within(
    m: Map<AccountId, AccountId>,
    from: AccountId,
    target: AccountId,
    steps: nat,
) -> bool
    decreases steps,
{
    if steps == 0 {
        false
    } else if from == target {
        true
    } else {
        match next_of(m, from) {
            Some(n) => reaches_within(m, n, target, (steps - 1) as nat),
            None => false,
        }
    }
}

/// The summed balances of the first `n` delegators whose chain ends at
/// `delegate` (`bs[i]` is the balance of `ds[i]`).
pub open spec fn power_upto(
    m: Map<AccountId, AccountId>,
    ds: Seq<AccountId>,
    bs: Seq<i128>,
    delegate: AccountId,
    n: int,
) -> int
    decreases n,
{
    if n <= 0 {
        0
    } else {
        power_upto(m, ds, bs, delegate, n - 1) + if resolve(m, ds[n - 1], MAX_DEPTH as nat)
            == delegate {
            bs[n - 1] as int
        } else {
            0
        }
    }
}

/// Every running total of the delegated power fits in an `i128`.
pub open spec fn power_fits(
    m: Map<AccountId, AccountId>,
    ds: Seq<AccountId>,
    bs: Seq<i128>,
    delegate: AccountId,
) -> bool {
    forall|k: int|
        0 <= k <= ds.len() ==> i128::MIN <= #[trigger] power_upto(m, ds, bs, delegate, k)
            <= i128::MAX
}

/// The delegation contract's stored state.
pub struct DelegationContract {
    pub admin: Option<AccountId>,
    pub mnt_token: Option<AccountId>,
    /// Delegator to delegate.
    pub delegates: HashMap<AccountId, AccountId>,
    /// Every current delegator, in the order they first delegated.
    pub delegators: Vec<AccountId>,
}

impl DelegationContract {
    /// The delegator list holds each current delegator exactly once.
    pub open spec fn well_formed(&self) -> bool {
        &&& forall|i: int, j: int|
            0 <= i < j < self.delegators@.len() ==> #[trigger] self.delegators@[i]
                != #[trigger] self.delegators@[j]
        &&& forall|a: AccountId|
            #[trigger] self.delegators@.contains(a) <==> self.delegates@.contains_key(a)
    }

    /// A contract that has not been initialized.
    pub fn new() -> (s: Self)
        ensures
            s.well_formed(),
            s.admin is None,
            s.mnt_token is None,
            s.delegates@ == Map::<AccountId, AccountId>::empty(),
            s.delegators@ == Seq::<AccountId>::empty(),
    {
        DelegationContract {
            admin: None,
            mnt_token: None,
            delegates: HashMap::new(),
            delegators: Vec::new(),
        }
    }

    pub fn initialize(&mut self, admin: AccountId, mnt_token: AccountId) -> (r: Result<(), Rejection>)
        ensures
            r == (if old(self).admin is Some {
                Err(Rejection::AlreadyInitialized)
            } else {
                Ok(())
            }),
            r is Ok ==> final(self).admin == Some(admin) && final(self).mnt_token == Some(mnt_token),
            r is Err ==> final(self).admin == old(self).admin && final(self).mnt_token == old(self).mnt_token,
            final(self).delegates@ == old(self).delegates@,
            final(self).delegators@ == old(self).delegators@,
    {
        if self.admin.is_some() {
            return Err(Rejection::AlreadyInitialized);
        }
        self.admin = Some(admin);
        self.mnt_token = Some(mnt_token);
        Ok(())
    }

    fn contains(v: &Vec<AccountId>, a: AccountId) -> (r: Option<usize>)
        ensures
            match r {
                Some(i) => i < v@.len() && v@[i as int] == a && forall|j: int|
                    0 <= j < i ==> #[trigger] v@[j] != a,
                None => !v@.contains(a),
            },
    {
        let mut i: usize = 0;
        while i < v.len()
            invariant
                i <= v@.len(),
                forall|j: int| 0 <= j < i ==> #[trigger] v@[j] != a,
            decreases v.len() - i,
        {
            if v[i] == a {
                return Some(i);
            }
            i = i + 1;
        }
        None
    }

    /// `delegator` (whose authorization the host checks) delegates its
    /// voting power to `delegate`.  Returns the event payload.
    ///
    /// The cycle check deliberately walks the delegate chain from `delegate`
    /// for at most `MAX_DEPTH` hops, the same reach within which voting power
    /// is followed: a delegation that would lead back to `delegator` within
    /// that reach is refused, while a longer loop is not looked for (after
    /// a→b, b→c, c→d, the delegation d→a is accepted).
    pub fn delegate(&mut self, delegator: AccountId, delegate: AccountId) -> (r: Result<
        DelegatedEventData,
        Rejection,
    >)
        requires
            old(self).well_formed(),
        ensures
            final(self).well_formed(),
            r == (if delegator == delegate {
                Err(Rejection::SelfDelegation)
            } else if reaches_within(old(self).delegates@, delegate, delegator, MAX_DEPTH as nat) {
                Err(Rejection::CircularDelegation)
            } else {
                Ok(DelegatedEventData { delegator, delegate })
            }),
            r is Ok ==> final(self).delegates@ == old(self).delegates@.insert(delegator, delegate)
                && final(self).delegators@ == (if old(self).delegators@.contains(delegator) {
                old(self).delegators@
            } else {
                old(self).delegators@.push(delegator)
            }),
            r is Err ==> final(self).delegates@ == old(self).delegates@ && final(self).delegators@
                == old(self).delegators@,
            final(self).admin == old(self).admin,
            final(self).mnt_token == old(self).mnt_token,
    {
        if delegator == delegate {
            return Err(Rejection::SelfDelegation);
        }
        let mut cur = delegate;
        let mut i: u32 = 0;
        while i < MAX_DEPTH
            invariant
                i <= MAX_DEPTH,
                delegator != delegate,
                self.well_formed(),
                *self == *old(self),
                reaches_within(self.delegates@, delegate, delegator, MAX_DEPTH as nat)
                    == reaches_within(self.delegates@, cur, delegator, (MAX_DEPTH - i) as nat),
            decreases MAX_DEPTH - i,
        {
            if cur == delegator {
                return Err(Rejection::CircularDelegation);
            }
            match self.delegates.get(&cur) {
                Some(next) => {
                    cur = *next;
                },
                None => {
                    return self.record_delegation(delegator, delegate);
                },
            }
            i = i + 1;
        }
        self.record_delegation(delegator, delegate)
    }

    fn record_delegation(&mut self, delegator: AccountId, delegate: AccountId) -> (r: Result<
        DelegatedEventData,
        Rejection,
    >)
        requires
            old(self).well_formed(),
        ensures
            final(self).well_formed(),
            r == Ok::<DelegatedEventData, Rejection>(DelegatedEventData { delegator, delegate }),
            final(self).delegates@ == old(self).delegates@.insert(delegator, delegate),
            final(self).delegators@ == (if old(self).delegators@.contains(delegator) {
                old(self).delegators@
            } else {
                old(self).delegators@.push(delegator)
            }),
            final(self).admin == old(self).admin,
            final(self).mnt_token == old(self).mnt_token,
    {
        let ghost old_ds = self.delegators@;
        let ghost old_m = self.delegates@;
        self.delegates.insert(delegator, delegate);
        let found = Self::contains(&self.delegators, delegator);
        if found.is_none() {
            self.delegators.push(delegator);
            proof {
                let ds = self.delegators@;
                assert forall|i: int, j: int| 0 <= i < j < ds.len() implies #[trigger] ds[i]
                    != #[trigger] ds[j] by {
                    if j == ds.len() - 1 {
                        assert(old_ds[i] == ds[i]);
                    } else {
                        assert(old_ds[i] != old_ds[j]);
                    }
                }
            }
        }
        proof {
            let ds = self.delegators@;
            assert forall|a: AccountId| #[trigger] ds.contains(a) <==> self.delegates@.contains_key(a) by {
                assert(old_ds.contains(a) <==> old_m.contains_key(a));
                if a == delegator {
                    if found.is_none() {
                        assert(ds[ds.len() - 1] == a);
                    }
                } else {
                    if ds.contains(a) {
                        let j = choose|j: int| 0 <= j < ds.len() && ds[j] == a;
                        assert(old_ds[j] == a);
                        assert(old_ds.contains(a));
                    }
                    if old_ds.contains(a) {
                        let j = choose|j: int| 0 <= j < old_ds.len() && old_ds[j] == a;
                        assert(ds[j] == a);
                        assert(ds.contains(a));
                    }
                }
            }
        }
        Ok(DelegatedEventData { delegator, delegate })
    }

    /// `delegator` (whose authorization the host checks) takes its voting
    /// power back.  Returns the event payload, or nothing where it had not
    /// delegated.
    pub fn undelegate(&mut self, delegator: AccountId) -> (r: Option<UndelegatedEventData>)
        requires
            old(self).well_formed(),
        ensures
            final(self).well_formed(),
            r == (if old(self).delegates@.contains_key(delegator) {
                Some(UndelegatedEventData { delegator })
            } else {
                None
            }),
            final(self).delegates@ == old(self).delegates@.remove(delegator),
            final(self).delegators@ == (if old(self).delegators@.contains(delegator) {
                old(self).delegators@.remove(old(self).delegators@.index_of(delegator))
            } else {
                old(self).delegators@
            }),
            final(self).admin == old(self).admin,
            final(self).mnt_token == old(self).mnt_token,
    {
        if !self.delegates.contains_key(&delegator) {
            proof {
                assert(self.delegates@.remove(delegator) =~= self.delegates@);
            }
            return None;
        }
        self.delegates.remove(&delegator);
        let ghost old_ds = self.delegators@;
        match Self::contains(&self.delegators, delegator) {
            Some(index) => {
                self.delegators.remove(index);
                proof {
                    let ds = self.delegators@;
                    old_ds.remove_ensures(index as int);
                    assert(old_ds.index_of(delegator) == index as int) by {
                        assert(old_ds[index as int] == delegator);
                        if old_ds.index_of(delegator) != index as int {
                            let k = old_ds.index_of(delegator);
                            assert(old_ds[k] == delegator);
                        }
                    }
                    assert forall|i: int, j: int| 0 <= i < j < ds.len() implies #[trigger] ds[i]
                        != #[trigger] ds[j] by {
                        let oi = if i < index { i } else { i + 1 };
                        let oj = if j < index { j } else { j + 1 };
                        assert(ds[i] == old_ds[oi] && ds[j] == old_ds[oj]);
                    }
                    assert forall|a: AccountId| #[trigger] ds.contains(a) <==> self.delegates@.contains_key(a) by {
                        assert(old_ds.contains(a) <==> old(self).delegates@.contains_key(a));
                        if ds.contains(a) {
                            let j = choose|j: int| 0 <= j < ds.len() && ds[j] == a;
                            let oj = if j < index { j } else { j + 1 };
                            assert(old_ds[oj] == a);
                            assert(oj != index);
                        }
                        if self.delegates@.contains_key(a) {
                            assert(old_ds.contains(a));
                            let j = choose|j: int| 0 <= j < old_ds.len() && old_ds[j] == a;
                            assert(j != index);
                            if j < index {
                                assert(ds[j] == a);
                            } else {
                                assert(ds[j - 1] == a);
                            }
                            assert(ds.contains(a));
                        }
                    }
                }
            },
            None => {},
        }
        Some(UndelegatedEventData { delegator })
    }

    /// The account `delegator` delegated to, if any.
    pub fn get_delegate(&self, delegator: AccountId) -> (r: Option<AccountId>)
        ensures
            r == next_of(self.delegates@, delegator),
    {
        match self.delegates.get(&delegator) {
            Some(d) => Some(*d),
            None => None,
        }
    }

    /// The delegators, in the order the host should look up their balances
    /// for `get_delegated_power`.
    pub fn get_delegators(&self) -> (out: Vec<AccountId>)
        ensures
            out@ == self.delegators@,
    {
        self.delegators.clone()
    }

    /// Where `addr`'s delegation chain ends within `depth` hops.
    pub fn resolve_delegate_internal(&self, addr: AccountId, depth: u32) -> (r: Option<AccountId>)
        ensures
            r == Some(resolve(self.delegates@, addr, depth as nat)),
    {
        let mut cur = addr;
        let mut i: u32 = 0;
        while i < depth
            invariant
                i <= depth,
                resolve(self.delegates@, addr, depth as nat) == resolve(
                    self.delegates@,
                    cur,
                    (depth - i) as nat,
                ),
            decreases depth - i,
        {
            match self.delegates.get(&cur) {
                Some(next) => {
                    cur = *next;
                },
                None => {
                    return Some(cur);
                },
            }
            i = i + 1;
        }
        Some(cur)
    }

    /// The voting power delegated to `delegate`: the balances of every
    /// delegator whose chain ends at it.  `balances[i]` is the token balance
    /// of the `i`-th delegator, as the host read it.
    pub fn get_delegated_power(&self, delegate: AccountId, balances: &Vec<i128>) -> (r: Result<
        i128,
        Rejection,
    >)
        requires
            balances@.len() == self.delegators@.len(),
        ensures
            r == (if self.mnt_token is None {
                Err(Rejection::TokenNotSet)
            } else if !power_fits(self.delegates@, self.delegators@, balances@, delegate) {
                Err(Rejection::Overflow)
            } else {
                Ok(
                    power_upto(
                        self.delegates@,
                        self.delegators@,
                        balances@,
                        delegate,
                        self.delegators@.len() as int,
                    ) as i128,
                )
            }),
    {
        if self.mnt_token.is_none() {
            return Err(Rejection::TokenNotSet);
        }
        let ghost m = self.delegates@;
        let ghost ds = self.delegators@;
        let ghost bs = balances@;
        let mut total: i128 = 0;
        let mut i: usize = 0;
        while i < self.delegators.len()
            invariant
                i <= ds.len(),
                self.mnt_token is Some,
                ds == self.delegators@,
                m == self.delegates@,
                bs == balances@,
                bs.len() == ds.len(),
                total == power_upto(m, ds, bs, delegate, i as int),
                forall|k: int|
                    0 <= k <= i ==> i128::MIN <= #[trigger] power_upto(m, ds, bs, delegate, k)
                        <= i128::MAX,
            decreases ds.len() - i,
        {
            let d = self.delegators[i];
            let ult = self.resolve_delegate_internal(d, MAX_DEPTH);
            if ult == Some(delegate) {
                match total.checked_add(balances[i]) {
                    Some(t) => {
                        total = t;
                    },
                    None => {
                        assert(!(i128::MIN <= power_upto(m, ds, bs, delegate, i + 1)
                            <= i128::MAX));
                        return Err(Rejection::Overflow);
                    },
                }
            }
            i = i + 1;
            assert(i128::MIN <= power_upto(m, ds, bs, delegate, i as int) <= i128::MAX);
        }
        Ok(total)
    }

    /// The voting power `voter` can cast: nothing if it delegated away,
    /// otherwise its own balance plus what is delegated to it.
    pub fn get_effective_power(&self, voter: AccountId, own_balance: i128, balances: &Vec<i128>) -> (r:
        Result<i128, Rejection>)
        requires
            balances@.len() == self.delegators@.len(),
        ensures
            r == (if self.delegates@.contains_key(voter) {
                Ok(0)
            } else if self.mnt_token is None {
                Err(Rejection::TokenNotSet)
            } else if !power_fits(self.delegates@, self.delegators@, balances@, voter) {
                Err(Rejection::Overflow)
            } else if !(i128::MIN <= own_balance + power_upto(
                self.delegates@,
                self.delegators@,
                balances@,
                voter,
                self.delegators@.len() as int,
            ) <= i128::MAX) {
                Err(Rejection::Overflow)
            } else {
                Ok(
                    (own_balance + power_upto(
                        self.delegates@,
                        self.delegators@,
                        balances@,
                        voter,
                        self.delegators@.len() as int,
                    )) as i128,
                )
            }),
    {
        if self.delegates.contains_key(&voter) {
            return Ok(0);
        }
        if self.mnt_token.is_none() {
            return Err(Rejection::TokenNotSet);
        }
        let delegated = self.get_delegated_power(voter, balances)?;
        match own_balance.checked_add(delegated) {
            Some(t) => Ok(t),
            None => Err(Rejection::Overflow),
        }
    }
}

/// An accepted delegation never closes a cycle within the followed depth:
/// right after `delegator` delegates to `delegate`, following the chain from
/// `delegate` does not come back to `delegator` within `MAX_DEPTH` accounts.
pub proof fn lemma_no_short_cycle(
    m: Map<AccountId, AccountId>,
    delegator: AccountId,
    delegate: AccountId,
)
    requires
        delegator != delegate,
        !reaches_within(m, delegate, delegator, MAX_DEPTH as nat),
    ensures
        !reaches_within(m.insert(delegator, delegate), delegate, delegator, MAX_DEPTH as nat),
{
    lemma_reach_unchanged(m, delegator, delegate, delegate, MAX_DEPTH as nat);
}

proof fn lemma_reach_unchanged(
    m: Map<AccountId, AccountId>,
    delegator: AccountId,
    delegate: AccountId,
    from: AccountId,
    steps: nat,
)
    requires
        !reaches_within(m, from, delegator, steps),
    ensures
        !reaches_within(m.insert(delegator, delegate), from, delegator, steps),
    decreases steps,
{
    if steps > 0 && from != delegator {
        assert(next_of(m.insert(delegator, delegate), from) == next_of(m, from));
        match next_of(m, from) {
            Some(n) => lemma_reach_unchanged(m, delegator, delegate, n, (steps - 1) as nat),
            None => {},
        }
    }
}

} // verus!
