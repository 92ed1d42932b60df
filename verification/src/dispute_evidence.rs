//! Dispute evidence: while an escrow is disputed, its mentor and learner
//! may each file evidence references, up to five per escrow and within a
//! window after the session ended.
use std::collections::HashMap;
use vstd::prelude::*;

use crate::ids::{AccountId, SymbolId};

verus! {

broadcast use vstd::std_specs::hash::group_hash_axioms;

/// How long after a session's end evidence is accepted: 48 hours.
pub const DEFAULT_WINDOW_SECS: u64 = 48 * 60 * 60;

/// How many evidence items one escrow may hold.
pub const MAX_EVIDENCE_ITEMS: u32 = 5;

/// Mirror of the escrow contract's status.
#[derive(Copy, Clone, Debug, PartialEq, Eq, Structural)]
pub enum EscrowStatus {
    Active,
    Released,
    Disputed,
    Refunded,
    Resolved,
}

/// The escrow record as the escrow contract reports it.
#[derive(Copy, Clone, Debug, PartialEq, Eq, Structural)]
pub struct Escrow {
    pub id: u64,
    pub mentor: AccountId,
    pub learner: AccountId,
    pub amount: i128,
    pub session_id: SymbolId,
    pub status: EscrowStatus,
    pub created_at: u64,
    pub token_address: AccountId,
    pub platform_fee: i128,
    pub net_amount: i128,
    pub session_end_time: u64,
    pub auto_release_delay: u64,
    pub dispute_reason: SymbolId,
    pub resolved_at: u64,
    pub usd_amount: i128,
    pub quoted_token_amount: i128,
    pub send_asset: AccountId,
    pub dest_asset: AccountId,
    pub total_sessions: u32,
    pub sessions_completed: u32,
}

#[derive(Copy, Clone, Debug, PartialEq, Eq, Structural)]
pub struct EvidenceItem {
    pub submitter: AccountId,
    pub evidence_ref: SymbolId,
    pub submitted_at: u64,
}

#[derive(Copy, Clone, Debug, PartialEq, Eq, Structural)]
pub enum Error {
    AlreadyInitialized,
    Unauthorized,
    InvalidEscrowState,
    EvidenceWindowClosed,
    EvidenceLimitReached,
}

/// `a + b`, or `u64::MAX` where that overflows.
pub open spec fn saturating_sum(a: u64, b: u64) -> int {
    if a + b > u64::MAX {
        u64::MAX as int
    } else {
        a + b
    }
}

/// The dispute-evidence contract's stored state.
pub struct DisputeEvidenceContract {
    pub admin: Option<AccountId>,
    pub escrow_contract: Option<AccountId>,
    pub window_secs: Option<u64>,
    pub evidence: HashMap<u64, Vec<EvidenceItem>>,
}

impl DisputeEvidenceContract {
    /// The evidence filed for an escrow, oldest first.
    pub open spec fn evidence_of(&self, escrow_id: u64) -> Seq<EvidenceItem> {
        if self.evidence@.contains_key(escrow_id) {
            self.evidence@[escrow_id]@
        } else {
            Seq::empty()
        }
    }

    /// The evidence window in force.
    pub open spec fn window(&self) -> u64 {
        match self.window_secs {
            Some(w) => w,
            None => DEFAULT_WINDOW_SECS,
        }
    }

    /// No escrow holds more than the maximum number of items.
    pub open spec fn well_formed(&self) -> bool {
        forall|id: u64| #[trigger] self.evidence_of(id).len() <= MAX_EVIDENCE_ITEMS
    }

    /// A contract that has not been initialized.
    pub fn new() -> (s: Self)
        ensures
            s.well_formed(),
            s.admin is None,
            s.escrow_contract is None,
            s.window_secs is None,
            s.evidence@ == Map::<u64, Vec<EvidenceItem>>::empty(),
    {
        DisputeEvidenceContract {
            admin: None,
            escrow_contract: None,
            window_secs: None,
            evidence: HashMap::new(),
        }
    }

    /// Set the admin (whose authorization the host checks), the escrow
    /// contract and the default evidence window.
    pub fn initialize(&mut self, admin: AccountId, escrow_contract: AccountId) -> (r: Result<(), Error>)
        requires
            old(self).well_formed(),
        ensures
            final(self).well_formed(),
            r == (if old(self).admin is Some {
                Err(Error::AlreadyInitialized)
            } else {
                Ok(())
            }),
            r is Ok ==> final(self).admin == Some(admin) && final(self).escrow_contract == Some(
                escrow_contract,
            ) && final(self).window_secs == Some(DEFAULT_WINDOW_SECS),
            r is Err ==> final(self).admin == old(self).admin && final(self).escrow_contract == old(self).escrow_contract && final(self).window_secs == old(self).window_secs,
            final(self).evidence@ == old(self).evidence@,
    {
        if self.admin.is_some() {
            return Err(Error::AlreadyInitialized);
        }
        self.admin = Some(admin);
        self.escrow_contract = Some(escrow_contract);
        self.window_secs = Some(DEFAULT_WINDOW_SECS);
        proof {
            assert forall|id: u64| #[trigger] self.evidence_of(id).len() <= MAX_EVIDENCE_ITEMS by {
                assert(old(self).evidence_of(id).len() <= MAX_EVIDENCE_ITEMS);
            }
        }
        Ok(())
    }

    /// Fails unless `admin` is the stored admin.
    pub fn require_admin(&self, admin: AccountId) -> (r: Result<(), Error>)
        ensures
            r == (if self.admin == Some(admin) {
                Ok(())
            } else {
                Err(Error::Unauthorized)
            }),
    {
        match self.admin {
            Some(a) => if a == admin {
                Ok(())
            } else {
                Err(Error::Unauthorized)
            },
            None => Err(Error::Unauthorized),
        }
    }

    /// Point the contract at another escrow contract (admin only).
    pub fn set_escrow_contract(&mut self, admin: AccountId, escrow_contract: AccountId) -> (r: Result<
        (),
        Error,
    >)
        requires
            old(self).well_formed(),
        ensures
            final(self).well_formed(),
            r == (if old(self).admin == Some(admin) {
                Ok(())
            } else {
                Err(Error::Unauthorized)
            }),
            final(self).escrow_contract == (if r is Ok {
                Some(escrow_contract)
            } else {
                old(self).escrow_contract
            }),
            final(self).admin == old(self).admin,
            final(self).window_secs == old(self).window_secs,
            final(self).evidence@ == old(self).evidence@,
    {
        self.require_admin(admin)?;
        self.escrow_contract = Some(escrow_contract);
        proof {
            assert forall|id: u64| #[trigger] self.evidence_of(id).len() <= MAX_EVIDENCE_ITEMS by {
                assert(old(self).evidence_of(id).len() <= MAX_EVIDENCE_ITEMS);
            }
        }
        Ok(())
    }

    /// The escrow contract that the host asks for an escrow's record.
    pub fn escrow_source(&self) -> (c: Option<AccountId>)
        ensures
            c == self.escrow_contract,
    {
        self.escrow_contract
    }

    /// File `evidence_ref` for escrow `escrow_id` at ledger time `now`;
    /// `escrow` is the record the escrow contract returned for it.  Returns
    /// the stored item, which the host publishes.
    pub fn submit_evidence(
        &mut self,
        escrow_id: u64,
        submitter: AccountId,
        evidence_ref: SymbolId,
        escrow: &Escrow,
        now: u64,
    ) -> (r: Result<EvidenceItem, Error>)
        requires
            old(self).well_formed(),
            old(self).escrow_contract is Some,
        ensures
            final(self).well_formed(),
            r == (if escrow.status != EscrowStatus::Disputed {
                Err(Error::InvalidEscrowState)
            } else if submitter != escrow.mentor && submitter != escrow.learner {
                Err(Error::Unauthorized)
            } else if now > saturating_sum(escrow.session_end_time, old(self).window()) {
                Err(Error::EvidenceWindowClosed)
            } else if old(self).evidence_of(escrow_id).len() >= MAX_EVIDENCE_ITEMS {
                Err(Error::EvidenceLimitReached)
            } else {
                Ok(EvidenceItem { submitter, evidence_ref, submitted_at: now })
            }),
            forall|id: u64|
                #[trigger] final(self).evidence_of(id) == if r is Ok && id == escrow_id {
                    old(self).evidence_of(id).push(r->Ok_0)
                } else {
                    old(self).evidence_of(id)
                },
            r is Err ==> final(self).evidence@ == old(self).evidence@,
            final(self).admin == old(self).admin,
            final(self).escrow_contract == old(self).escrow_contract,
            final(self).window_secs == old(self).window_secs,
    {
        if escrow.status != EscrowStatus::Disputed {
            return Err(Error::InvalidEscrowState);
        }
        if submitter != escrow.mentor && submitter != escrow.learner {
            return Err(Error::Unauthorized);
        }
        let window_secs: u64 = match self.window_secs {
            Some(w) => w,
            None => DEFAULT_WINDOW_SECS,
        };
        if now > escrow.session_end_time.saturating_add(window_secs) {
            return Err(Error::EvidenceWindowClosed);
        }
        let count: usize = match self.evidence.get(&escrow_id) {
            Some(v) => v.len(),
            None => 0,
        };
        if count >= MAX_EVIDENCE_ITEMS as usize {
            return Err(Error::EvidenceLimitReached);
        }
        let item = EvidenceItem { submitter, evidence_ref, submitted_at: now };
        let mut items = match self.evidence.remove(&escrow_id) {
            Some(v) => v,
            None => Vec::new(),
        };
        items.push(item);
        self.evidence.insert(escrow_id, items);
        proof {
            assert forall|id: u64| #[trigger] self.evidence_of(id).len() <= MAX_EVIDENCE_ITEMS by {
                assert(old(self).evidence_of(id).len() <= MAX_EVIDENCE_ITEMS);
            }
        }
        Ok(item)
    }

    /// The evidence filed for an escrow, oldest first.
    pub fn get_evidence(&self, escrow_id: u64) -> (out: Vec<EvidenceItem>)
        ensures
            out@ == self.evidence_of(escrow_id),
    {
        match self.evidence.get(&escrow_id) {
            Some(v) => {
                let mut out: Vec<EvidenceItem> = Vec::new();
                let mut i: usize = 0;
                while i < v.len()
                    invariant
                        i <= v@.len(),
                        out@ == v@.take(i as int),
                    decreases v.len() - i,
                {
                    out.push(v[i]);
                    i = i + 1;
                    assert(out@ =~= v@.take(i as int));
                }
                assert(out@ =~= v@);
                out
            },
            None => Vec::new(),
        }
    }

    /// How many evidence items an escrow holds.
    pub fn get_evidence_count(&self, escrow_id: u64) -> (n: u32)
        requires
            self.well_formed(),
        ensures
            n == self.evidence_of(escrow_id).len(),
    {
        proof {
            assert(self.evidence_of(escrow_id).len() <= MAX_EVIDENCE_ITEMS);
        }
        match self.evidence.get(&escrow_id) {
            Some(v) => v.len() as u32,
            None => 0,
        }
    }
}

} // verus!
