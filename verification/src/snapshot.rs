//! Governance snapshots: at a chosen moment the staked balances and the
//! total stake are copied out of the staking contract, so that later votes
//! weigh each voter by its stake at that moment.
use std::collections::HashMap;
use vstd::prelude::*;

use crate::ids::{pair_key, pair_key_spec, AccountId};

verus! {

broadcast use vstd::std_specs::hash::group_hash_axioms;

#[derive(Copy, Clone, Debug, PartialEq, Eq, Structural)]
pub enum Rejection {
    AlreadyInitialized,
    NotInitialized,
}

impl Rejection {
    /// The message with which the contract aborts.
    pub fn message(&self) -> (m: &'static str)
        ensures
            m == (match *self {
                Rejection::AlreadyInitialized => "already initialized",
                Rejection::NotInitialized => "not initialized",
            }),
    {
        match self {
            Rejection::AlreadyInitialized => "already initialized",
            Rejection::NotInitialized => "not initialized",
        }
    }
}

/// The amount of the last stake record of `voter` among `stakes`, if any.
pub open spec fn last_stake(stakes: Seq<(AccountId, i128)>, voter: AccountId) -> Option<i128>
    decreases stakes.len(),
{
    if stakes.len() == 0 {
        None
    } else if stakes.last().0 == voter {
        Some(stakes.last().1)
    } else {
        last_stake(stakes.drop_last(), voter)
    }
}

/// The snapshot contract's stored state.
pub struct SnapshotContract {
    pub admin: Option<AccountId>,
    pub staking_contract: Option<AccountId>,
    /// Keyed by `pair_key(snapshot_id, voter)`.
    pub powers: HashMap<u128, i128>,
    pub total_supply: HashMap<u32, i128>,
}

impl SnapshotContract {
    /// The voting power of `voter` at a snapshot (0 if none was recorded).
    pub open spec fn power_at(&self, snapshot_id: u32, voter: AccountId) -> i128 {
        let k = pair_key_spec(snapshot_id as u64, voter);
        if self.powers@.contains_key(k) {
            self.powers@[k]
        } else {
            0
        }
    }

    /// The total stake at a snapshot (0 if none was recorded).
    pub open spec fn supply_at(&self, snapshot_id: u32) -> i128 {
        if self.total_supply@.contains_key(snapshot_id) {
            self.total_supply@[snapshot_id]
        } else {
            0
        }
    }

    /// A contract that has not been initialized.
    pub fn new() -> (s: Self)
        ensures
            s.admin is None,
            s.staking_contract is None,
            s.powers@ == Map::<u128, i128>::empty(),
            s.total_supply@ == Map::<u32, i128>::empty(),
    {
        SnapshotContract {
            admin: None,
            staking_contract: None,
            powers: HashMap::new(),
            total_supply: HashMap::new(),
        }
    }

    pub fn initialize(&mut self, admin: AccountId, staking_contract: AccountId) -> (r: Result<
        (),
        Rejection,
    >)
        ensures
            r == (if old(self).admin is Some {
                Err(Rejection::AlreadyInitialized)
            } else {
                Ok(())
            }),
            r is Ok ==> final(self).admin == Some(admin) && final(self).staking_contract == Some(
                staking_contract,
            ),
            r is Err ==> final(self).admin == old(self).admin && final(self).staking_contract
                == old(self).staking_contract,
            final(self).powers@ == old(self).powers@,
            final(self).total_supply@ == old(self).total_supply@,
    {
        if self.admin.is_some() {
            return Err(Rejection::AlreadyInitialized);
        }
        self.admin = Some(admin);
        self.staking_contract = Some(staking_contract);
        Ok(())
    }

    /// The staking contract that the host queries for a snapshot.
    pub fn staking_source(&self) -> (r: Result<AccountId, Rejection>)
        ensures
            r == (match self.staking_contract {
                Some(c) => Ok::<AccountId, Rejection>(c),
                None => Err(Rejection::NotInitialized),
            }),
    {
        match self.staking_contract {
            Some(c) => Ok(c),
            None => Err(Rejection::NotInitialized),
        }
    }

    /// Record snapshot `snapshot_id`: `total_supply` and `stakes` (each
    /// staker with its staked amount) are what the staking contract
    /// reported.
    pub fn record_snapshot(&mut self, snapshot_id: u32, total_supply: i128, stakes: &Vec<(AccountId, i128)>) -> (r:
        Result<(), Rejection>)
        ensures
            r == (if old(self).staking_contract is None {
                Err(Rejection::NotInitialized)
            } else {
                Ok(())
            }),
            r is Ok ==> forall|id: u32|
                #[trigger] final(self).supply_at(id) == if id == snapshot_id {
                    total_supply
                } else {
                    old(self).supply_at(id)
                },
            r is Ok ==> forall|id: u32, voter: AccountId|
                #[trigger] final(self).power_at(id, voter) == if id == snapshot_id && last_stake(
                    stakes@,
                    voter,
                ) is Some {
                    last_stake(stakes@, voter)->Some_0
                } else {
                    old(self).power_at(id, voter)
                },
            r is Err ==> final(self).powers@ == old(self).powers@ && final(self).total_supply@ == old(self).total_supply@,
            final(self).admin == old(self).admin,
            final(self).staking_contract == old(self).staking_contract,
    {
        if self.staking_contract.is_none() {
            return Err(Rejection::NotInitialized);
        }
        self.total_supply.insert(snapshot_id, total_supply);
        let ghost start = *self;
        let mut i: usize = 0;
        assert(stakes@.take(0) =~= Seq::<(AccountId, i128)>::empty());
        while i < stakes.len()
            invariant
                i <= stakes@.len(),
                self.admin == start.admin,
                self.staking_contract == start.staking_contract,
                self.total_supply@ == start.total_supply@,
                forall|id: u32, voter: AccountId|
                    #[trigger] self.power_at(id, voter) == if id == snapshot_id && last_stake(
                        stakes@.take(i as int),
                        voter,
                    ) is Some {
                        last_stake(stakes@.take(i as int), voter)->Some_0
                    } else {
                        start.power_at(id, voter)
                    },
            decreases stakes.len() - i,
        {
            let (staker, amount) = stakes[i];
            let k = pair_key(snapshot_id as u64, staker);
            let ghost prev = *self;
            self.powers.insert(k, amount);
            proof {
                assert(stakes@.take(i + 1).drop_last() =~= stakes@.take(i as int));
                assert(stakes@.take(i + 1).last() == stakes@[i as int]);
                assert forall|id: u32, voter: AccountId| #[trigger] self.power_at(id, voter) == if id
                    == snapshot_id && last_stake(stakes@.take(i + 1), voter) is Some {
                    last_stake(stakes@.take(i + 1), voter)->Some_0
                } else {
                    start.power_at(id, voter)
                } by {
                    assert(prev.power_at(id, voter) == if id == snapshot_id && last_stake(
                        stakes@.take(i as int),
                        voter,
                    ) is Some {
                        last_stake(stakes@.take(i as int), voter)->Some_0
                    } else {
                        start.power_at(id, voter)
                    });
                    assert(last_stake(stakes@.take(i + 1), voter) == if staker == voter {
                        Some(amount)
                    } else {
                        last_stake(stakes@.take(i as int), voter)
                    });
                    crate::ids::lemma_pair_key_injective(
                        snapshot_id as u64,
                        staker,
                        id as u64,
                        voter,
                    );
                }
            }
            i = i + 1;
        }
        assert(stakes@.take(i as int) =~= stakes@);
        Ok(())
    }

    /// The voting power of `voter` at a snapshot.
    pub fn get_voting_power(&self, snapshot_id: u32, voter: AccountId) -> (p: i128)
        ensures
            p == self.power_at(snapshot_id, voter),
    {
        match self.powers.get(&pair_key(snapshot_id as u64, voter)) {
            Some(p) => *p,
            None => 0,
        }
    }

    /// The total stake at a snapshot, for quorum.
    pub fn get_total_supply_at(&self, snapshot_id: u32) -> (s: i128)
        ensures
            s == self.supply_at(snapshot_id),
    {
        match self.total_supply.get(&snapshot_id) {
            Some(s) => *s,
            None => 0,
        }
    }
}

} // verus!
