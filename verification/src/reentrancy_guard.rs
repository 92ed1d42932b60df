//! A named lock held in a contract's instance state while an operation that
//! makes outside calls is under way.
use std::collections::HashMap;
use vstd::prelude::*;

use crate::ids::SymbolId;

verus! {

broadcast use vstd::std_specs::hash::group_hash_axioms;

/// The lock table: a lock is held while its name maps to `true`.
pub open spec fn is_locked(locks: Map<SymbolId, bool>, name: SymbolId) -> bool {
    locks.contains_key(name) && locks[name]
}

#[derive(Copy, Clone, Debug, PartialEq, Eq, Structural)]
pub enum GuardError {
    /// The lock was already held: the call re-entered the contract.
    ReentrantCall,
}

impl GuardError {
    /// The message with which the guarded operation aborts.
    pub fn message(&self) -> (m: &'static str)
        ensures
            m == "reentrant call",
    {
        "reentrant call"
    }
}

/// Proof that a lock was taken; handing it back releases the lock.
#[must_use]
#[derive(Debug, PartialEq, Eq, Structural)]
pub struct ReentrancyGuard {
    lock_name: SymbolId,
}

impl ReentrancyGuard {
    pub closed spec fn name(&self) -> SymbolId {
        self.lock_name
    }

    /// Take the lock `lock_name`, failing if it is already held.
    pub fn enter(locks: &mut HashMap<SymbolId, bool>, lock_name: SymbolId) -> (r: Result<
        Self,
        GuardError,
    >)
        ensures
            is_locked(old(locks)@, lock_name) ==> r == Err::<Self, GuardError>(
                GuardError::ReentrantCall,
            ) && final(locks)@ == old(locks)@,
            !is_locked(old(locks)@, lock_name) ==> r is Ok && r->Ok_0.name() == lock_name
                && final(locks)@ == old(locks)@.insert(lock_name, true),
    {
        let locked = match locks.get(&lock_name) {
            Some(v) => *v,
            None => false,
        };
        if locked {
            return Err(GuardError::ReentrantCall);
        }
        locks.insert(lock_name, true);
        Ok(ReentrancyGuard { lock_name })
    }

    /// Release the lock.
    pub fn release(self, locks: &mut HashMap<SymbolId, bool>)
        ensures
            final(locks)@ == old(locks)@.remove(self.name()),
    {
        locks.remove(&self.lock_name);
    }
}

/// Taking a free lock and releasing it leaves the lock table as it was
/// (when the lock's name had no entry before).
pub proof fn lemma_enter_release_restores(
    before: Map<SymbolId, bool>,
    name: SymbolId,
)
    requires
        !before.contains_key(name),
    ensures
        before.insert(name, true).remove(name) == before,
{
    assert(before.insert(name, true).remove(name) =~= before);
}

} // verus!
