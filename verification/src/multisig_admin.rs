//! M-of-N admin: signers propose calls, other signers approve them, and a
//! call that reached the threshold before its expiry runs once.  Calls to
//! the contract itself add or remove signers.
use std::collections::HashMap;
use vstd::prelude::*;

use crate::ids::{lemma_pair_key_injective, pair_key, pair_key_spec, AccountId};

verus! {

broadcast use vstd::std_specs::hash::group_hash_axioms;

#[derive(Copy, Clone, Debug, PartialEq, Eq, Structural)]
pub enum Error {
    AlreadyInitialized,
    NotInitialized,
    NotAdmin,
    NotSigner,
    AlreadySigner,
    ProposalNotFound,
    AlreadySigned,
    BelowThreshold,
    AlreadyExecuted,
    Cancelled,
    Expired,
    InvalidThreshold,
}

/// 7 days.
pub const EXPIRY_SECONDS: u64 = 7 * 24 * 60 * 60;

/// What the contract can read of a call argument: an address, or a value
/// of another type.
#[derive(Copy, Clone, Debug, PartialEq, Eq, Structural)]
pub enum CallArg {
    Address(AccountId),
    Other,
}

pub struct ProposalRecord {
    pub id: u32,
    pub proposer: AccountId,
    pub target: AccountId,
    pub function: String,
    pub args: Vec<CallArg>,
    pub approval_count: u32,
    pub expiry: u64,
    pub executed: bool,
    pub cancelled: bool,
}

/// What an executed proposal did, or asks the host to do.
#[derive(Copy, Clone, Debug, PartialEq, Eq, Structural)]
pub enum ExecutionOutcome {
    /// The proposal added `signer`; there are now `count` signers.
    SignerAdded { signer: AccountId, count: u32 },
    /// The proposal removed `signer`; there are now `count` signers.
    SignerRemoved { signer: AccountId, count: u32 },
    /// The host must invoke the proposal's function on its target contract
    /// with its arguments.
    External { target: AccountId },
}

/// The multisig's stored state.
pub struct MultisigAdminContract {
    pub threshold: Option<u32>,
    pub signer_count: u32,
    pub proposal_count: u32,
    pub signers: HashMap<AccountId, bool>,
    pub proposals: HashMap<u32, ProposalRecord>,
    /// Approvals, under the key `pair_key(signer, proposal id)`.
    pub approvals: HashMap<u128, bool>,
}

/// `s` names some account twice.
pub open spec fn has_duplicate(s: Seq<AccountId>) -> bool {
    exists|i: int, j: int| #![trigger s[i], s[j]] 0 <= i < j < s.len() && s[i] == s[j]
}

impl MultisigAdminContract {
    pub open spec fn signer(&self, a: AccountId) -> bool {
        self.signers@.contains_key(a) && self.signers@[a]
    }

    pub open spec fn approved(&self, signer: AccountId, id: u32) -> bool {
        let k = pair_key_spec(signer, id as u64);
        self.approvals@.contains_key(k) && self.approvals@[k]
    }

    /// The threshold, once set, is at least one.
    pub open spec fn threshold_ok(&self) -> bool {
        self.threshold matches Some(t) ==> t >= 1
    }

    /// The addresses that are signers.
    pub open spec fn signer_set(&self) -> Set<AccountId> {
        Set::new(|a: AccountId| self.signer(a))
    }

    /// The stored signer count is the number of signers, every stored signer
    /// entry is set, and the threshold, once set, lies between one and the
    /// signer count; before initialization there are no signers.
    pub open spec fn well_formed(&self) -> bool {
        &&& self.signers@.dom().finite()
        &&& self.signers@.dom().len() == self.signer_count
        &&& forall|a: AccountId| #[trigger] self.signers@.contains_key(a) ==> self.signers@[a]
        &&& match self.threshold {
            Some(t) => 1 <= t <= self.signer_count,
            None => self.signer_count == 0,
        }
    }

    /// The checks shared by signing, executing and cancelling a live
    /// proposal, after it was found.
    pub open spec fn liveness_error(p: &ProposalRecord, now: u64) -> Option<Error> {
        if p.executed {
            Some(Error::AlreadyExecuted)
        } else if p.cancelled {
            Some(Error::Cancelled)
        } else if now > p.expiry {
            Some(Error::Expired)
        } else {
            None
        }
    }

    /// A multisig that has not been initialized.
    pub fn new() -> (s: Self)
        ensures
            s.threshold is None,
            s.signer_count == 0,
            s.proposal_count == 0,
            s.signers@ == Map::<AccountId, bool>::empty(),
            s.proposals@ == Map::<u32, ProposalRecord>::empty(),
            s.approvals@ == Map::<u128, bool>::empty(),
            s.well_formed(),
    {
        MultisigAdminContract {
            threshold: None,
            signer_count: 0,
            proposal_count: 0,
            signers: HashMap::new(),
            proposals: HashMap::new(),
            approvals: HashMap::new(),
        }
    }

    fn signer_flag(&self, a: AccountId) -> (r: bool)
        ensures
            r == self.signer(a),
    {
        match self.signers.get(&a) {
            Some(v) => *v,
            None => false,
        }
    }

    /// Set the signers and the threshold.
    pub fn initialize(&mut self, signers: Vec<AccountId>, threshold: u32) -> (r: Result<(), Error>)
        requires
            signers@.len() <= u32::MAX,
        ensures
            r == (if old(self).threshold is Some {
                Err(Error::AlreadyInitialized)
            } else if signers@.len() == 0 || threshold == 0 {
                Err(Error::InvalidThreshold)
            } else if threshold > signers@.len() {
                Err(Error::InvalidThreshold)
            } else if has_duplicate(signers@) || exists|i: int|
                0 <= i < signers@.len() && #[trigger] old(self).signers@.contains_key(signers@[i]) {
                Err(Error::AlreadySigner)
            } else {
                Ok(())
            }),
            r is Err ==> final(self).threshold == old(self).threshold && final(self).signer_count
                == old(self).signer_count && final(self).proposal_count == old(self).proposal_count
                && final(self).signers@ == old(self).signers@,
            r is Ok ==> {
                &&& final(self).threshold == Some(threshold)
                &&& final(self).signer_count == signers@.len()
                &&& final(self).proposal_count == 0
                &&& forall|a: AccountId| #[trigger]
                    final(self).signers@.contains_key(a) <==> (old(self).signers@.contains_key(a)
                        || signers@.contains(a))
                &&& forall|a: AccountId| signers@.contains(a) ==> #[trigger] final(self).signer(a)
                &&& forall|a: AccountId| !signers@.contains(a) && #[trigger] old(self).signers@.contains_key(a) ==> final(self).signers@[a] == old(self).signers@[a]
            },
            final(self).proposals@ == old(self).proposals@,
            final(self).approvals@ == old(self).approvals@,
            r is Ok ==> final(self).threshold_ok(),
            old(self).well_formed() ==> final(self).well_formed(),
    {
        if self.threshold.is_some() {
            return Err(Error::AlreadyInitialized);
        }
        let n = signers.len();
        if n == 0 || threshold == 0 {
            return Err(Error::InvalidThreshold);
        }
        if threshold > n as u32 {
            return Err(Error::InvalidThreshold);
        }
        let mut seen: HashMap<AccountId, bool> = HashMap::new();
        let mut i: usize = 0;
        while i < n
            invariant
                n == signers@.len(),
                i <= n,
                forall|a: AccountId| #[trigger]
                    seen@.contains_key(a) <==> signers@.take(i as int).contains(a),
                !has_duplicate(signers@.take(i as int)),
                forall|j: int| 0 <= j < i ==> !#[trigger] self.signers@.contains_key(signers@[j]),
                self.signers@ == old(self).signers@,
                old(self).threshold is None,
                0 < n,
                0 < threshold <= n,
            decreases n - i,
        {
            let s = signers[i];
            if self.signers.contains_key(&s) {
                assert(old(self).signers@.contains_key(signers@[i as int]));
                assert(exists|j: int|
                    0 <= j < signers@.len() && #[trigger] old(self).signers@.contains_key(signers@[j]));
                return Err(Error::AlreadySigner);
            }
            if seen.contains_key(&s) {
                proof {
                    let t = signers@.take(i as int);
                    assert(t.contains(s));
                    let k = choose|k: int| 0 <= k < t.len() && t[k] == s;
                    assert(signers@[k] == signers@[i as int]);
                    assert(has_duplicate(signers@));
                }
                return Err(Error::AlreadySigner);
            }
            proof {
                let t = signers@.take(i as int);
                assert(signers@.take(i + 1) =~= t.push(s));
                assert forall|a: AccountId| #[trigger] t.push(s).contains(a) <==> (t.contains(a) || a == s) by {
                    vstd::seq_lib::lemma_seq_contains_after_push(t, s, a);
                }
                assert(!has_duplicate(t.push(s))) by {
                    let u = t.push(s);
                    if has_duplicate(u) {
                        let (x, y) = choose|x: int, y: int|
                            #![trigger u[x], u[y]]
                            0 <= x < y < u.len() && u[x] == u[y];
                        if y == i {
                            assert(u[x] == t[x]);
                            assert(t.contains(s));
                        } else {
                            assert(u[x] == t[x] && u[y] == t[y]);
                            assert(has_duplicate(t));
                        }
                    }
                }
            }
            seen.insert(s, true);
            i = i + 1;
        }
        proof {
            assert(signers@.take(n as int) =~= signers@);
        }
        let mut k: usize = 0;
        while k < n
            invariant
                n == signers@.len(),
                k <= n,
                !has_duplicate(signers@),
                forall|j: int| 0 <= j < n ==> !#[trigger] old(self).signers@.contains_key(signers@[j]),
                forall|a: AccountId| #[trigger]
                    self.signers@.contains_key(a) <==> (old(self).signers@.contains_key(a)
                        || signers@.take(k as int).contains(a)),
                forall|a: AccountId| #[trigger] signers@.take(k as int).contains(a) ==> self.signers@.contains_key(a) && self.signers@[a],
                forall|a: AccountId| !signers@.take(k as int).contains(a) && #[trigger] old(self).signers@.contains_key(a)
                    ==> self.signers@[a] == old(self).signers@[a],
                self.threshold is None,
                old(self).threshold is None,
                0 < n,
                0 < threshold <= n,
                self.proposals@ == old(self).proposals@,
                self.approvals@ == old(self).approvals@,
                self.signer_count == old(self).signer_count,
                self.proposal_count == old(self).proposal_count,
            decreases n - k,
        {
            let s = signers[k];
            proof {
                let t = signers@.take(k as int);
                assert(signers@.take(k + 1) =~= t.push(s));
                assert forall|a: AccountId| #[trigger] t.push(s).contains(a) <==> (t.contains(a) || a == s) by {
                    vstd::seq_lib::lemma_seq_contains_after_push(t, s, a);
                }
            }
            let ghost prev = self.signers@;
            self.signers.insert(s, true);
            proof {
                assert forall|a: AccountId| #[trigger] signers@.take(k + 1).contains(a) implies self.signers@.contains_key(a) && self.signers@[a] by {
                    if a != s {
                        assert(signers@.take(k as int).contains(a));
                        assert(prev.contains_key(a) && prev[a]);
                    }
                }
            }
            k = k + 1;
        }
        proof {
            assert(signers@.take(n as int) =~= signers@);
            assert forall|j: int| 0 <= j < n implies !#[trigger] old(self).signers@.contains_key(signers@[j]) by {}
        }
        self.threshold = Some(threshold);
        self.signer_count = n as u32;
        self.proposal_count = 0;
        proof {
            if old(self).well_formed() {
                old(self).signers@.dom().lemma_len0_is_empty();
                assert(self.signers@.dom() =~= signers@.to_set());
                assert(signers@.no_duplicates()) by {
                    assert forall|x: int, y: int|
                        0 <= x < signers@.len() && 0 <= y < signers@.len() && x != y implies
                        signers@[x] != signers@[y] by {
                        if x < y {
                            if signers@[x] == signers@[y] {
                                assert(has_duplicate(signers@));
                            }
                        } else {
                            if signers@[x] == signers@[y] {
                                assert(has_duplicate(signers@));
                            }
                        }
                    }
                }
                signers@.unique_seq_to_set();
                vstd::seq_lib::seq_to_set_is_finite(signers@);
                assert forall|a: AccountId| #[trigger] self.signers@.contains_key(a) implies self.signers@[a] by {
                    assert(signers@.contains(a));
                }
            }
        }
        Ok(())
    }

    /// Propose calling `function` on `target` with `args`; the proposer's
    /// approval is recorded with it and it expires seven days after `now`.
    pub fn propose_action(
        &mut self,
        proposer: AccountId,
        target: AccountId,
        function: String,
        args: Vec<CallArg>,
        now: u64,
    ) -> (r: Result<u32, Error>)
        requires
            old(self).threshold is Some && old(self).signer(proposer) ==> old(self).proposal_count
                < u32::MAX && now + EXPIRY_SECONDS <= u64::MAX,
        ensures
            r == (if old(self).threshold is None {
                Err(Error::NotInitialized)
            } else if !old(self).signer(proposer) {
                Err(Error::NotSigner)
            } else {
                Ok((old(self).proposal_count + 1) as u32)
            }),
            r is Err ==> final(self).proposal_count == old(self).proposal_count && final(self).proposals@ == old(self).proposals@ && final(self).approvals@ == old(self).approvals@,
            r matches Ok(id) ==> {
                &&& final(self).proposal_count == id
                &&& final(self).proposals@.dom() == old(self).proposals@.dom().insert(id)
                &&& forall|k: u32| k != id && #[trigger] old(self).proposals@.contains_key(k)
                    ==> final(self).proposals@[k] == old(self).proposals@[k]
                &&& final(self).proposals@[id].id == id
                &&& final(self).proposals@[id].proposer == proposer
                &&& final(self).proposals@[id].target == target
                &&& final(self).proposals@[id].function@ == function@
                &&& final(self).proposals@[id].args@ == args@
                &&& final(self).proposals@[id].approval_count == 1
                &&& final(self).proposals@[id].expiry == now + EXPIRY_SECONDS
                &&& !final(self).proposals@[id].executed
                &&& !final(self).proposals@[id].cancelled
                &&& final(self).approvals@ == old(self).approvals@.insert(
                    pair_key_spec(proposer, id as u64),
                    true,
                )
            },
            final(self).threshold == old(self).threshold,
            final(self).signer_count == old(self).signer_count,
            final(self).signers@ == old(self).signers@,
            old(self).well_formed() ==> final(self).well_formed(),
    {
        if self.threshold.is_none() {
            return Err(Error::NotInitialized);
        }
        if !self.signer_flag(proposer) {
            return Err(Error::NotSigner);
        }
        let new_id = self.proposal_count + 1;
        self.proposal_count = new_id;
        let expiry = now + EXPIRY_SECONDS;
        let proposal = ProposalRecord {
            id: new_id,
            proposer,
            target,
            function,
            args,
            approval_count: 1,
            expiry,
            executed: false,
            cancelled: false,
        };
        self.proposals.insert(new_id, proposal);
        self.approvals.insert(pair_key(proposer, new_id as u64), true);
        Ok(new_id)
    }

    fn approval_flag(&self, signer: AccountId, id: u32) -> (r: bool)
        ensures
            r == self.approved(signer, id),
    {
        match self.approvals.get(&pair_key(signer, id as u64)) {
            Some(v) => *v,
            None => false,
        }
    }

    /// Approve proposal `action_id` at time `now`.
    pub fn sign_action(&mut self, signer: AccountId, action_id: u32, now: u64) -> (r: Result<
        (),
        Error,
    >)
        requires
            old(self).proposals@.contains_key(action_id) ==> old(self).proposals@[action_id].approval_count < u32::MAX,
        ensures
            r == (if old(self).threshold is None {
                Err(Error::NotInitialized)
            } else if !old(self).signer(signer) {
                Err(Error::NotSigner)
            } else if !old(self).proposals@.contains_key(action_id) {
                Err(Error::ProposalNotFound)
            } else if Self::liveness_error(&old(self).proposals@[action_id], now) is Some {
                Err(Self::liveness_error(&old(self).proposals@[action_id], now)->Some_0)
            } else if old(self).approved(signer, action_id) {
                Err(Error::AlreadySigned)
            } else {
                Ok(())
            }),
            r is Err ==> final(self).proposals@ == old(self).proposals@ && final(self).approvals@
                == old(self).approvals@,
            r is Ok ==> final(self).approvals@ == old(self).approvals@.insert(
                pair_key_spec(signer, action_id as u64),
                true,
            ) && final(self).proposals@ == old(self).proposals@.insert(
                action_id,
                ProposalRecord {
                    approval_count: (old(self).proposals@[action_id].approval_count + 1) as u32,
                    ..old(self).proposals@[action_id]
                },
            ),
            final(self).threshold == old(self).threshold,
            final(self).signer_count == old(self).signer_count,
            final(self).proposal_count == old(self).proposal_count,
            final(self).signers@ == old(self).signers@,
            old(self).well_formed() ==> final(self).well_formed(),
    {
        if self.threshold.is_none() {
            return Err(Error::NotInitialized);
        }
        if !self.signer_flag(signer) {
            return Err(Error::NotSigner);
        }
        match self.proposals.get(&action_id) {
            None => {
                return Err(Error::ProposalNotFound);
            },
            Some(p) => {
                if p.executed {
                    return Err(Error::AlreadyExecuted);
                }
                if p.cancelled {
                    return Err(Error::Cancelled);
                }
                if now > p.expiry {
                    return Err(Error::Expired);
                }
            },
        }
        if self.approval_flag(signer, action_id) {
            return Err(Error::AlreadySigned);
        }
        self.approvals.insert(pair_key(signer, action_id as u64), true);
        let mut proposal = self.proposals.remove(&action_id).unwrap();
        proposal.approval_count = proposal.approval_count + 1;
        self.proposals.insert(action_id, proposal);
        proof {
            assert(self.proposals@ =~= old(self).proposals@.insert(
                action_id,
                ProposalRecord {
                    approval_count: (old(self).proposals@[action_id].approval_count + 1) as u32,
                    ..old(self).proposals@[action_id]
                },
            ));
        }
        Ok(())
    }

    /// What executing the found, live, approved proposal `p` does to the
    /// signer set, and its outcome.
    pub open spec fn dispatch(&self, p: &ProposalRecord, current_contract: AccountId) -> Result<
        ExecutionOutcome,
        Error,
    > {
        if p.target != current_contract {
            Ok(ExecutionOutcome::External { target: p.target })
        } else if p.function@ == "add_signer"@ || p.function@ == "remove_signer"@ {
            if p.args@.len() == 0 || !(p.args@[0] is Address) {
                Err(Error::ProposalNotFound)
            } else if p.function@ == "add_signer"@ {
                let s = p.args@[0]->Address_0;
                if self.signer(s) {
                    Err(Error::AlreadySigner)
                } else {
                    Ok(
                        ExecutionOutcome::SignerAdded {
                            signer: s,
                            count: (self.signer_count + 1) as u32,
                        },
                    )
                }
            } else {
                let s = p.args@[0]->Address_0;
                if !self.signer(s) {
                    Err(Error::NotSigner)
                } else if (if self.signer_count == 0 { 0 } else { self.signer_count - 1 })
                    < self.threshold->Some_0 {
                    Err(Error::InvalidThreshold)
                } else {
                    Ok(
                        ExecutionOutcome::SignerRemoved {
                            signer: s,
                            count: (self.signer_count - 1) as u32,
                        },
                    )
                }
            }
        } else {
            Err(Error::ProposalNotFound)
        }
    }

    /// What `execute_action` of `action_id` at time `now` returns.
    pub open spec fn execute_result(&self, action_id: u32, now: u64, current_contract: AccountId) -> Result<
        ExecutionOutcome,
        Error,
    > {
        if self.threshold is None {
            Err(Error::NotInitialized)
        } else if !self.proposals@.contains_key(action_id) {
            Err(Error::ProposalNotFound)
        } else if Self::liveness_error(&self.proposals@[action_id], now) is Some {
            Err(Self::liveness_error(&self.proposals@[action_id], now)->Some_0)
        } else if self.proposals@[action_id].approval_count < self.threshold->Some_0 {
            Err(Error::BelowThreshold)
        } else {
            self.dispatch(&self.proposals@[action_id], current_contract)
        }
    }

    /// Execute proposal `action_id` at time `now`; `current_contract` is this
    /// contract's own address.
    pub fn execute_action(&mut self, action_id: u32, now: u64, current_contract: AccountId) -> (r:
        Result<ExecutionOutcome, Error>)
        requires
            old(self).threshold_ok(),
            old(self).execute_result(action_id, now, current_contract) matches Ok(
                ExecutionOutcome::SignerAdded { .. },
            ) ==> old(self).signer_count < u32::MAX,
        ensures
            r == old(self).execute_result(action_id, now, current_contract),
            r is Err ==> final(self).proposals@ == old(self).proposals@ && final(self).signers@
                == old(self).signers@ && final(self).signer_count == old(self).signer_count,
            r is Ok ==> final(self).proposals@ == old(self).proposals@.insert(
                action_id,
                ProposalRecord { executed: true, ..old(self).proposals@[action_id] },
            ),
            r matches Ok(ExecutionOutcome::SignerAdded { signer, count }) ==> final(self).signers@
                == old(self).signers@.insert(signer, true) && final(self).signer_count == count,
            r matches Ok(ExecutionOutcome::SignerRemoved { signer, count }) ==> final(self).signers@
                == old(self).signers@.remove(signer) && final(self).signer_count == count,
            r matches Ok(ExecutionOutcome::External { target }) ==> final(self).signers@ == old(self).signers@ && final(self).signer_count == old(self).signer_count,
            old(self).threshold is Some && old(self).signer_count >= old(self).threshold->Some_0
                ==> final(self).signer_count >= old(self).threshold->Some_0,
            final(self).threshold == old(self).threshold,
            final(self).proposal_count == old(self).proposal_count,
            final(self).approvals@ == old(self).approvals@,
            old(self).well_formed() ==> final(self).well_formed(),
    {
        let threshold = match self.threshold {
            Some(t) => t,
            None => return Err(Error::NotInitialized),
        };
        let (target, is_add, is_remove, first_arg) = match self.proposals.get(&action_id) {
            None => {
                return Err(Error::ProposalNotFound);
            },
            Some(p) => {
                if p.executed {
                    return Err(Error::AlreadyExecuted);
                }
                if p.cancelled {
                    return Err(Error::Cancelled);
                }
                if now > p.expiry {
                    return Err(Error::Expired);
                }
                if p.approval_count < threshold {
                    return Err(Error::BelowThreshold);
                }
                let add_fn = String::from_str("add_signer");
                let rem_fn = String::from_str("remove_signer");
                let first_arg = if p.args.len() > 0 {
                    Some(p.args[0])
                } else {
                    None
                };
                (p.target, p.function == add_fn, p.function == rem_fn, first_arg)
            },
        };
        let outcome = if target == current_contract {
            if is_add || is_remove {
                let s = match first_arg {
                    Some(CallArg::Address(a)) => a,
                    _ => return Err(Error::ProposalNotFound),
                };
                if is_add {
                    self.apply_add_signer(s)?
                } else {
                    self.apply_remove_signer(s)?
                }
            } else {
                return Err(Error::ProposalNotFound);
            }
        } else {
            ExecutionOutcome::External { target }
        };
        let mut proposal = self.proposals.remove(&action_id).unwrap();
        proposal.executed = true;
        self.proposals.insert(action_id, proposal);
        proof {
            assert(self.proposals@ =~= old(self).proposals@.insert(
                action_id,
                ProposalRecord { executed: true, ..old(self).proposals@[action_id] },
            ));
        }
        Ok(outcome)
    }

    fn apply_add_signer(&mut self, new_signer: AccountId) -> (r: Result<ExecutionOutcome, Error>)
        requires
            old(self).threshold is Some,
            !old(self).signer(new_signer) ==> old(self).signer_count < u32::MAX,
        ensures
            old(self).well_formed() ==> final(self).well_formed(),
            old(self).signer(new_signer) ==> r == Err::<ExecutionOutcome, Error>(
                Error::AlreadySigner,
            ) && final(self).signers@ == old(self).signers@ && final(self).signer_count == old(self).signer_count,
            !old(self).signer(new_signer) ==> r == Ok::<ExecutionOutcome, Error>(
                ExecutionOutcome::SignerAdded {
                    signer: new_signer,
                    count: (old(self).signer_count + 1) as u32,
                },
            ) && final(self).signers@ == old(self).signers@.insert(new_signer, true) && final(self).signer_count == old(self).signer_count + 1,
            final(self).threshold == old(self).threshold,
            final(self).proposal_count == old(self).proposal_count,
            final(self).proposals@ == old(self).proposals@,
            final(self).approvals@ == old(self).approvals@,
    {
        if self.signer_flag(new_signer) {
            return Err(Error::AlreadySigner);
        }
        self.signers.insert(new_signer, true);
        let count = self.signer_count + 1;
        self.signer_count = count;
        proof {
            if old(self).well_formed() {
                assert(!old(self).signers@.contains_key(new_signer));
                assert(self.signers@.dom() =~= old(self).signers@.dom().insert(new_signer));
            }
        }
        Ok(ExecutionOutcome::SignerAdded { signer: new_signer, count })
    }

    fn apply_remove_signer(&mut self, signer: AccountId) -> (r: Result<ExecutionOutcome, Error>)
        requires
            old(self).threshold_ok(),
            old(self).threshold is Some,
        ensures
            old(self).well_formed() ==> final(self).well_formed(),
            r == (if !old(self).signer(signer) {
                Err(Error::NotSigner)
            } else if (if old(self).signer_count == 0 {
                0
            } else {
                old(self).signer_count - 1
            }) < old(self).threshold->Some_0 {
                Err(Error::InvalidThreshold)
            } else {
                Ok(
                    ExecutionOutcome::SignerRemoved {
                        signer,
                        count: (old(self).signer_count - 1) as u32,
                    },
                )
            }),
            r is Err ==> final(self).signers@ == old(self).signers@ && final(self).signer_count
                == old(self).signer_count,
            r is Ok ==> final(self).signers@ == old(self).signers@.remove(signer) && final(self).signer_count == old(self).signer_count - 1,
            final(self).threshold == old(self).threshold,
            final(self).proposal_count == old(self).proposal_count,
            final(self).proposals@ == old(self).proposals@,
            final(self).approvals@ == old(self).approvals@,
    {
        if !self.signer_flag(signer) {
            return Err(Error::NotSigner);
        }
        let count = self.signer_count;
        let threshold = match self.threshold {
            Some(t) => t,
            None => 0,
        };
        if count.saturating_sub(1) < threshold {
            return Err(Error::InvalidThreshold);
        }
        self.signers.remove(&signer);
        self.signer_count = count - 1;
        Ok(ExecutionOutcome::SignerRemoved { signer, count: count - 1 })
    }

    /// Cancel proposal `action_id` at time `now`; its proposer or any
    /// current signer may do so.
    pub fn cancel_action(&mut self, caller: AccountId, action_id: u32, now: u64) -> (r: Result<
        (),
        Error,
    >)
        ensures
            r == (if old(self).threshold is None {
                Err(Error::NotInitialized)
            } else if !old(self).proposals@.contains_key(action_id) {
                Err(Error::ProposalNotFound)
            } else if old(self).proposals@[action_id].proposer != caller && !old(self).signer(
                caller,
            ) {
                Err(Error::NotSigner)
            } else if Self::liveness_error(&old(self).proposals@[action_id], now) is Some {
                Err(Self::liveness_error(&old(self).proposals@[action_id], now)->Some_0)
            } else {
                Ok(())
            }),
            r is Err ==> final(self).proposals@ == old(self).proposals@,
            r is Ok ==> final(self).proposals@ == old(self).proposals@.insert(
                action_id,
                ProposalRecord { cancelled: true, ..old(self).proposals@[action_id] },
            ),
            final(self).threshold == old(self).threshold,
            final(self).signer_count == old(self).signer_count,
            final(self).proposal_count == old(self).proposal_count,
            final(self).signers@ == old(self).signers@,
            final(self).approvals@ == old(self).approvals@,
            old(self).well_formed() ==> final(self).well_formed(),
    {
        if self.threshold.is_none() {
            return Err(Error::NotInitialized);
        }
        match self.proposals.get(&action_id) {
            None => {
                return Err(Error::ProposalNotFound);
            },
            Some(p) => {
                let is_proposer = p.proposer == caller;
                let is_signer = self.signer_flag(caller);
                if !is_proposer && !is_signer {
                    return Err(Error::NotSigner);
                }
                if p.executed {
                    return Err(Error::AlreadyExecuted);
                }
                if p.cancelled {
                    return Err(Error::Cancelled);
                }
                if now > p.expiry {
                    return Err(Error::Expired);
                }
            },
        }
        let mut proposal = self.proposals.remove(&action_id).unwrap();
        proposal.cancelled = true;
        self.proposals.insert(action_id, proposal);
        proof {
            assert(self.proposals@ =~= old(self).proposals@.insert(
                action_id,
                ProposalRecord { cancelled: true, ..old(self).proposals@[action_id] },
            ));
        }
        Ok(())
    }

    /// The proposal `action_id`.
    pub fn get_proposal(&self, action_id: u32) -> (r: Result<&ProposalRecord, Error>)
        ensures
            self.proposals@.contains_key(action_id) ==> r == Ok::<&ProposalRecord, Error>(
                &self.proposals@[action_id],
            ),
            !self.proposals@.contains_key(action_id) ==> r == Err::<&ProposalRecord, Error>(
                Error::ProposalNotFound,
            ),
    {
        match self.proposals.get(&action_id) {
            Some(p) => Ok(p),
            None => Err(Error::ProposalNotFound),
        }
    }

    pub fn is_signer(&self, address: AccountId) -> (r: Result<bool, Error>)
        ensures
            r == (if self.threshold is None {
                Err(Error::NotInitialized)
            } else {
                Ok(self.signer(address))
            }),
    {
        if self.threshold.is_none() {
            return Err(Error::NotInitialized);
        }
        Ok(self.signer_flag(address))
    }

    pub fn get_threshold(&self) -> (r: Result<u32, Error>)
        ensures
            r == (match self.threshold {
                Some(t) => Ok(t),
                None => Err(Error::NotInitialized),
            }),
    {
        match self.threshold {
            Some(t) => Ok(t),
            None => Err(Error::NotInitialized),
        }
    }

    pub fn get_signer_count(&self) -> (r: Result<u32, Error>)
        ensures
            r == (if self.threshold is None {
                Err(Error::NotInitialized)
            } else {
                Ok(self.signer_count)
            }),
    {
        if self.threshold.is_none() {
            return Err(Error::NotInitialized);
        }
        Ok(self.signer_count)
    }
}

/// In every state that `new` and the contract's operations reach (each of
/// them keeps `well_formed`), the stored signer count is the number of
/// addresses that are signers, and a set threshold lies between one and that
/// count.
pub proof fn lemma_signer_count_is_number_of_signers(c: MultisigAdminContract)
    requires
        c.well_formed(),
    ensures
        c.signer_set() == c.signers@.dom(),
        c.signer_set().finite(),
        c.signer_set().len() == c.signer_count,
        c.threshold matches Some(t) ==> 1 <= t <= c.signer_set().len(),
{
    assert(c.signer_set() =~= c.signers@.dom());
}

/// A proposal runs at most once: after `execute_action` succeeded on it,
/// every later execution of it is refused with `AlreadyExecuted`.
pub proof fn lemma_executes_once(
    pre: MultisigAdminContract,
    post: MultisigAdminContract,
    action_id: u32,
    now: u64,
    later: u64,
    current_contract: AccountId,
)
    requires
        pre.execute_result(action_id, now, current_contract) is Ok,
        post.threshold == pre.threshold,
        post.proposals@ == pre.proposals@.insert(
            action_id,
            ProposalRecord { executed: true, ..pre.proposals@[action_id] },
        ),
    ensures
        post.execute_result(action_id, later, current_contract) == Err::<ExecutionOutcome, Error>(
            Error::AlreadyExecuted,
        ),
{
}

/// A signer's approval of one proposal is kept apart from every other
/// (signer, proposal) pair.
pub proof fn lemma_approvals_are_separate(
    approvals: Map<u128, bool>,
    signer: AccountId,
    id: u32,
    other_signer: AccountId,
    other_id: u32,
)
    requires
        signer != other_signer || id != other_id,
    ensures
        approvals.insert(pair_key_spec(signer, id as u64), true).contains_key(
            pair_key_spec(other_signer, other_id as u64),
        ) == approvals.contains_key(pair_key_spec(other_signer, other_id as u64)),
{
    lemma_pair_key_injective(signer, id as u64, other_signer, other_id as u64);
}

} // verus!
