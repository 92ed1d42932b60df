//! Session oracle: the admin registers mentoring sessions, both participants
//! confirm completion within a grace period after the session ends, and a
//! session confirmed by both is ready for escrow release.
use std::collections::HashMap;
use vstd::prelude::*;

use crate::ids::{AccountId, SymbolId};

verus! {

broadcast use vstd::std_specs::hash::group_hash_axioms;

/// How long after its end a session may still be confirmed: 48 hours.
pub const EXPIRY_GRACE_SECS: u64 = 48 * 60 * 60;

#[derive(Copy, Clone, Debug, PartialEq, Eq, Structural)]
pub enum SessionState {
    Pending,
    Completed,
    Disputed,
    Expired,
}

#[derive(Copy, Clone, Debug, PartialEq, Eq, Structural)]
pub struct OracleSession {
    pub session_id: SymbolId,
    pub mentor: AccountId,
    pub learner: AccountId,
    pub escrow_id: u64,
    pub end_time: u64,
    pub mentor_confirmed: bool,
    pub learner_confirmed: bool,
    pub completed_at: u64,
    pub state: SessionState,
}

#[derive(Copy, Clone, Debug, PartialEq, Eq, Structural)]
pub enum Error {
    AlreadyInitialized,
    SessionAlreadyExists,
    SessionNotFound,
    Unauthorized,
    SessionDisputed,
    SessionExpired,
}

/// The last moment at which a session ending at `end_time` may be
/// confirmed.
pub open spec fn confirm_deadline(end_time: u64) -> int {
    if end_time + EXPIRY_GRACE_SECS > u64::MAX {
        u64::MAX as int
    } else {
        end_time + EXPIRY_GRACE_SECS
    }
}

/// The session after `participant` (one of its two parties) confirms at
/// time `now`.
pub open spec fn confirmed(s: OracleSession, participant: AccountId, now: u64) -> OracleSession {
    let m = s.mentor_confirmed || participant == s.mentor;
    let l = s.learner_confirmed || participant == s.learner;
    OracleSession {
        mentor_confirmed: m,
        learner_confirmed: l,
        state: if m && l {
            SessionState::Completed
        } else {
            s.state
        },
        completed_at: if m && l {
            now
        } else {
            s.completed_at
        },
        ..s
    }
}

/// The session oracle's stored state.
pub struct SessionOracleContract {
    pub admin: Option<AccountId>,
    pub sessions: HashMap<SymbolId, OracleSession>,
}

impl SessionOracleContract {
    /// A contract that has not been initialized.
    pub fn new() -> (s: Self)
        ensures
            s.admin is None,
            s.sessions@ == Map::<SymbolId, OracleSession>::empty(),
    {
        SessionOracleContract { admin: None, sessions: HashMap::new() }
    }

    /// Set the admin (whose authorization the host checks).
    pub fn initialize(&mut self, admin: AccountId) -> (r: Result<(), Error>)
        ensures
            r == (if old(self).admin is Some {
                Err(Error::AlreadyInitialized)
            } else {
                Ok(())
            }),
            final(self).admin == (if old(self).admin is Some {
                old(self).admin
            } else {
                Some(admin)
            }),
            final(self).sessions@ == old(self).sessions@,
    {
        if self.admin.is_some() {
            return Err(Error::AlreadyInitialized);
        }
        self.admin = Some(admin);
        Ok(())
    }

    /// Fails unless `admin` is the stored admin.
    pub fn require_admin(&self, admin: AccountId) -> (r: Result<(), Error>)
        ensures
            r == (if self.admin == Some(admin) {
                Ok(())
            } else {
                Err(Error::Unauthorized)
            }),
    {
        match self.admin {
            Some(a) => if a == admin {
                Ok(())
            } else {
                Err(Error::Unauthorized)
            },
            None => Err(Error::Unauthorized),
        }
    }

    /// Register a pending session (admin only).
    pub fn register_session(
        &mut self,
        admin: AccountId,
        session_id: SymbolId,
        mentor: AccountId,
        learner: AccountId,
        escrow_id: u64,
        end_time: u64,
    ) -> (r: Result<(), Error>)
        ensures
            r == (if old(self).admin != Some(admin) {
                Err(Error::Unauthorized)
            } else if old(self).sessions@.contains_key(session_id) {
                Err(Error::SessionAlreadyExists)
            } else {
                Ok(())
            }),
            r is Ok ==> final(self).sessions@ == old(self).sessions@.insert(
                session_id,
                OracleSession {
                    session_id,
                    mentor,
                    learner,
                    escrow_id,
                    end_time,
                    mentor_confirmed: false,
                    learner_confirmed: false,
                    completed_at: 0,
                    state: SessionState::Pending,
                },
            ),
            r is Err ==> final(self).sessions@ == old(self).sessions@,
            final(self).admin == old(self).admin,
    {
        self.require_admin(admin)?;
        if self.sessions.contains_key(&session_id) {
            return Err(Error::SessionAlreadyExists);
        }
        let record = OracleSession {
            session_id,
            mentor,
            learner,
            escrow_id,
            end_time,
            mentor_confirmed: false,
            learner_confirmed: false,
            completed_at: 0,
            state: SessionState::Pending,
        };
        self.sessions.insert(session_id, record);
        Ok(())
    }

    /// `participant` confirms at ledger time `now` that the session took
    /// place.  When both parties have confirmed, the session is completed
    /// and ready for escrow release.
    pub fn confirm_completion(&mut self, session_id: SymbolId, participant: AccountId, now: u64) -> (r:
        Result<OracleSession, Error>)
        ensures
            r == (if !old(self).sessions@.contains_key(session_id) {
                Err(Error::SessionNotFound)
            } else if old(self).sessions@[session_id].state == SessionState::Disputed {
                Err(Error::SessionDisputed)
            } else if now > confirm_deadline(old(self).sessions@[session_id].end_time) {
                Err(Error::SessionExpired)
            } else if participant != old(self).sessions@[session_id].mentor && participant != old(self).sessions@[session_id].learner {
                Err(Error::Unauthorized)
            } else {
                Ok(confirmed(old(self).sessions@[session_id], participant, now))
            }),
            r is Ok ==> final(self).sessions@ == old(self).sessions@.insert(session_id, r->Ok_0),
            r is Err ==> final(self).sessions@ == old(self).sessions@,
            final(self).admin == old(self).admin,
    {
        let mut record = match self.sessions.get(&session_id) {
            Some(s) => *s,
            None => {
                return Err(Error::SessionNotFound);
            },
        };
        if record.state == SessionState::Disputed {
            return Err(Error::SessionDisputed);
        }
        if now > record.end_time.saturating_add(EXPIRY_GRACE_SECS) {
            return Err(Error::SessionExpired);
        }
        if participant != record.mentor && participant != record.learner {
            return Err(Error::Unauthorized);
        }
        if participant == record.mentor {
            record.mentor_confirmed = true;
        }
        if participant == record.learner {
            record.learner_confirmed = true;
        }
        if record.mentor_confirmed && record.learner_confirmed {
            record.state = SessionState::Completed;
            record.completed_at = now;
        }
        self.sessions.insert(session_id, record);
        Ok(record)
    }

    /// `participant` disputes the session.
    pub fn raise_dispute(&mut self, session_id: SymbolId, participant: AccountId) -> (r: Result<
        (),
        Error,
    >)
        ensures
            r == (if !old(self).sessions@.contains_key(session_id) {
                Err(Error::SessionNotFound)
            } else if participant != old(self).sessions@[session_id].mentor && participant != old(self).sessions@[session_id].learner {
                Err(Error::Unauthorized)
            } else {
                Ok(())
            }),
            r is Ok ==> final(self).sessions@ == old(self).sessions@.insert(
                session_id,
                OracleSession { state: SessionState::Disputed, ..old(self).sessions@[session_id] },
            ),
            r is Err ==> final(self).sessions@ == old(self).sessions@,
            final(self).admin == old(self).admin,
    {
        let mut record = match self.sessions.get(&session_id) {
            Some(s) => *s,
            None => {
                return Err(Error::SessionNotFound);
            },
        };
        if participant != record.mentor && participant != record.learner {
            return Err(Error::Unauthorized);
        }
        record.state = SessionState::Disputed;
        self.sessions.insert(session_id, record);
        Ok(())
    }

    pub fn get_session(&self, session_id: SymbolId) -> (r: Result<OracleSession, Error>)
        ensures
            r == (if self.sessions@.contains_key(session_id) {
                Ok::<OracleSession, Error>(self.sessions@[session_id])
            } else {
                Err(Error::SessionNotFound)
            }),
    {
        match self.sessions.get(&session_id) {
            Some(s) => Ok(*s),
            None => Err(Error::SessionNotFound),
        }
    }
}

/// A session is completed exactly when both parties have confirmed it, and
/// a confirmation is never withdrawn.
pub proof fn lemma_completion_needs_both(s: OracleSession, participant: AccountId, now: u64)
    requires
        s.state == SessionState::Pending,
    ensures
        (confirmed(s, participant, now).state == SessionState::Completed) <==> (confirmed(
            s,
            participant,
            now,
        ).mentor_confirmed && confirmed(s, participant, now).learner_confirmed),
        s.mentor_confirmed ==> confirmed(s, participant, now).mentor_confirmed,
        s.learner_confirmed ==> confirmed(s, participant, now).learner_confirmed,
{
}

/// A confirmation sets the flag of the confirming party only: the mentor's
/// flag is set when the participant is the mentor and otherwise kept, and
/// likewise the learner's.  The session's parties, escrow and end time are
/// kept.  The session is marked completed, at `now`, when both flags are
/// then set, and otherwise keeps its state and completion time; so a session
/// whose mentor had not confirmed stays uncompleted after a confirmation by
/// anyone but the mentor, and likewise for the learner.
pub proof fn lemma_confirmation_is_by_own_party(s: OracleSession, participant: AccountId, now: u64)
    ensures
        ({
            let c = confirmed(s, participant, now);
            &&& c.mentor_confirmed == (s.mentor_confirmed || participant == s.mentor)
            &&& c.learner_confirmed == (s.learner_confirmed || participant == s.learner)
            &&& c.session_id == s.session_id
            &&& c.mentor == s.mentor
            &&& c.learner == s.learner
            &&& c.escrow_id == s.escrow_id
            &&& c.end_time == s.end_time
            &&& (c.mentor_confirmed && c.learner_confirmed ==> c.state == SessionState::Completed
                && c.completed_at == now)
            &&& (!(c.mentor_confirmed && c.learner_confirmed) ==> c.state == s.state
                && c.completed_at == s.completed_at)
            &&& (s.state != SessionState::Completed && !s.mentor_confirmed && participant
                != s.mentor ==> c.state != SessionState::Completed && !c.mentor_confirmed)
            &&& (s.state != SessionState::Completed && !s.learner_confirmed && participant
                != s.learner ==> c.state != SessionState::Completed && !c.learner_confirmed)
        }),
{
}

/// Of a pending, unconfirmed session with two distinct parties, the
/// learner's confirmation alone leaves it pending, and the mentor's
/// confirmation after it completes it at the mentor's time.
pub proof fn lemma_learner_then_mentor_completes(s: OracleSession, t1: u64, t2: u64)
    requires
        s.state == SessionState::Pending,
        !s.mentor_confirmed,
        !s.learner_confirmed,
        s.mentor != s.learner,
    ensures
        confirmed(s, s.learner, t1).state == SessionState::Pending,
        confirmed(s, s.learner, t1).learner_confirmed,
        !confirmed(s, s.learner, t1).mentor_confirmed,
        confirmed(confirmed(s, s.learner, t1), s.mentor, t2).state == SessionState::Completed,
        confirmed(confirmed(s, s.learner, t1), s.mentor, t2).completed_at == t2,
{
}

} // verus!
