//! Soulbound skill certificates: the platform backend issues numbered
//! certificates to learners, the admin may revoke them, and no certificate
//! can ever be transferred.
use std::collections::HashMap;
use vstd::prelude::*;

use crate::ids::{AccountId, SymbolId};

verus! {

broadcast use vstd::std_specs::hash::group_hash_axioms;

#[derive(Copy, Clone, Debug, PartialEq, Eq, Structural)]
pub struct CertificateRecord {
    pub id: u64,
    pub learner: AccountId,
    pub mentor: AccountId,
    pub skill: SymbolId,
    pub sessions_completed: u32,
    pub issued_at: u64,
    pub revoked: bool,
}

#[derive(Copy, Clone, Debug, PartialEq, Eq, Structural)]
pub enum Rejection {
    AlreadyInitialized,
    NotInitialized,
    NonTransferable,
    CertNotFound,
}

impl Rejection {
    /// The message with which the contract aborts.
    pub fn message(&self) -> (m: &'static str)
        ensures
            m == (match *self {
                Rejection::AlreadyInitialized => "already initialized",
                Rejection::NotInitialized => "not initialized",
                Rejection::NonTransferable => "non-transferable",
                Rejection::CertNotFound => "cert not found",
            }),
    {
        match self {
            Rejection::AlreadyInitialized => "already initialized",
            Rejection::NotInitialized => "not initialized",
            Rejection::NonTransferable => "non-transferable",
            Rejection::CertNotFound => "cert not found",
        }
    }
}

/// The stored certificates that `ids` name, in order; ids without a
/// certificate are skipped.
pub open spec fn load(ids: Seq<u64>, certs: Map<u64, CertificateRecord>) -> Seq<CertificateRecord>
    decreases ids.len(),
{
    if ids.len() == 0 {
        Seq::empty()
    } else {
        let rest = load(ids.drop_last(), certs);
        if certs.contains_key(ids.last()) {
            rest.push(certs[ids.last()])
        } else {
            rest
        }
    }
}

/// The ids stored under `key` of an index.
pub open spec fn ids_under<K>(index: Map<K, Vec<u64>>, key: K) -> Seq<u64> {
    if index.contains_key(key) {
        index[key]@
    } else {
        Seq::empty()
    }
}

/// The certificates contract's stored state.
pub struct Certificates {
    pub admin: Option<AccountId>,
    pub backend: Option<AccountId>,
    /// The last id issued (0 before the first).
    pub counter: u64,
    pub certs: HashMap<u64, CertificateRecord>,
    pub learner_certs: HashMap<AccountId, Vec<u64>>,
    pub skill_certs: HashMap<SymbolId, Vec<u64>>,
}

impl Certificates {
    /// A contract that has not been initialized.
    pub fn new() -> (s: Self)
        ensures
            s.admin is None,
            s.backend is None,
            s.counter == 0,
            s.certs@ == Map::<u64, CertificateRecord>::empty(),
            s.learner_certs@ == Map::<AccountId, Vec<u64>>::empty(),
            s.skill_certs@ == Map::<SymbolId, Vec<u64>>::empty(),
    {
        Certificates {
            admin: None,
            backend: None,
            counter: 0,
            certs: HashMap::new(),
            learner_certs: HashMap::new(),
            skill_certs: HashMap::new(),
        }
    }

    pub fn initialize(&mut self, admin: AccountId, backend: AccountId) -> (r: Result<(), Rejection>)
        ensures
            r == (if old(self).admin is Some {
                Err(Rejection::AlreadyInitialized)
            } else {
                Ok(())
            }),
            r is Ok ==> final(self).admin == Some(admin) && final(self).backend == Some(backend),
            r is Err ==> final(self).admin == old(self).admin && final(self).backend == old(self).backend,
            final(self).counter == old(self).counter,
            final(self).certs@ == old(self).certs@,
            final(self).learner_certs@ == old(self).learner_certs@,
            final(self).skill_certs@ == old(self).skill_certs@,
    {
        if self.admin.is_some() {
            return Err(Rejection::AlreadyInitialized);
        }
        self.admin = Some(admin);
        self.backend = Some(backend);
        Ok(())
    }

    fn push_id<K: std::hash::Hash + Eq + Copy>(index: &mut HashMap<K, Vec<u64>>, key: K, id: u64)
        requires
            vstd::std_specs::hash::obeys_key_model::<K>(),
        ensures
            forall|k: K|
                #[trigger] ids_under(final(index)@, k) == if k == key {
                    ids_under(old(index)@, k).push(id)
                } else {
                    ids_under(old(index)@, k)
                },
    {
        let mut ids = match index.remove(&key) {
            Some(v) => v,
            None => Vec::new(),
        };
        ids.push(id);
        index.insert(key, ids);
    }

    /// Issue a certificate (the host checks the backend's authorization).
    /// Returns its id, one above the last one issued.
    pub fn issue_certificate(
        &mut self,
        learner: AccountId,
        mentor: AccountId,
        skill: SymbolId,
        sessions_completed: u32,
        issued_at: u64,
    ) -> (r: Result<u64, Rejection>)
        requires
            old(self).counter < u64::MAX,
        ensures
            r == (if old(self).backend is None {
                Err(Rejection::NotInitialized)
            } else {
                Ok((old(self).counter + 1) as u64)
            }),
            r is Ok ==> final(self).counter == r->Ok_0 && final(self).certs@ == old(self).certs@.insert(
                r->Ok_0,
                CertificateRecord {
                    id: r->Ok_0,
                    learner,
                    mentor,
                    skill,
                    sessions_completed,
                    issued_at,
                    revoked: false,
                },
            ) && (forall|a: AccountId|
                #[trigger] ids_under(final(self).learner_certs@, a) == if a == learner {
                    ids_under(old(self).learner_certs@, a).push(r->Ok_0)
                } else {
                    ids_under(old(self).learner_certs@, a)
                }) && (forall|s: SymbolId|
                #[trigger] ids_under(final(self).skill_certs@, s) == if s == skill {
                    ids_under(old(self).skill_certs@, s).push(r->Ok_0)
                } else {
                    ids_under(old(self).skill_certs@, s)
                }),
            r is Err ==> final(self).counter == old(self).counter && final(self).certs@ == old(self).certs@
                && final(self).learner_certs@ == old(self).learner_certs@ && final(self).skill_certs@
                == old(self).skill_certs@,
            final(self).admin == old(self).admin,
            final(self).backend == old(self).backend,
    {
        if self.backend.is_none() {
            return Err(Rejection::NotInitialized);
        }
        let id = self.counter + 1;
        self.counter = id;
        let cert = CertificateRecord {
            id,
            learner,
            mentor,
            skill,
            sessions_completed,
            issued_at,
            revoked: false,
        };
        self.certs.insert(id, cert);
        Self::push_id(&mut self.learner_certs, learner, id);
        Self::push_id(&mut self.skill_certs, skill, id);
        Ok(id)
    }

    /// Certificates are soulbound: every transfer is refused.
    pub fn transfer(&self, to: AccountId, cert_id: u64) -> (r: Result<(), Rejection>)
        ensures
            r == Err::<(), Rejection>(Rejection::NonTransferable),
    {
        Err(Rejection::NonTransferable)
    }

    /// Revoke a certificate (the host checks the admin's authorization).
    /// Returns the certificate's learner, for the event.
    pub fn revoke_certificate(&mut self, cert_id: u64) -> (r: Result<AccountId, Rejection>)
        ensures
            r == (if old(self).admin is None {
                Err(Rejection::NotInitialized)
            } else if !old(self).certs@.contains_key(cert_id) {
                Err(Rejection::CertNotFound)
            } else {
                Ok(old(self).certs@[cert_id].learner)
            }),
            final(self).certs@ == (if r is Ok {
                old(self).certs@.insert(
                    cert_id,
                    CertificateRecord { revoked: true, ..old(self).certs@[cert_id] },
                )
            } else {
                old(self).certs@
            }),
            final(self).admin == old(self).admin,
            final(self).backend == old(self).backend,
            final(self).counter == old(self).counter,
            final(self).learner_certs@ == old(self).learner_certs@,
            final(self).skill_certs@ == old(self).skill_certs@,
    {
        if self.admin.is_none() {
            return Err(Rejection::NotInitialized);
        }
        let mut cert = match self.certs.get(&cert_id) {
            Some(c) => *c,
            None => {
                return Err(Rejection::CertNotFound);
            },
        };
        cert.revoked = true;
        self.certs.insert(cert_id, cert);
        Ok(cert.learner)
    }

    /// Whether a certificate is valid (not revoked), with its record.
    pub fn verify_certificate(&self, cert_id: u64) -> (r: Result<(bool, CertificateRecord), Rejection>)
        ensures
            r == (if self.certs@.contains_key(cert_id) {
                Ok((!self.certs@[cert_id].revoked, self.certs@[cert_id]))
            } else {
                Err(Rejection::CertNotFound)
            }),
    {
        match self.certs.get(&cert_id) {
            Some(c) => Ok((!c.revoked, *c)),
            None => Err(Rejection::CertNotFound),
        }
    }

    fn load_certs(&self, ids: Option<&Vec<u64>>) -> (out: Vec<CertificateRecord>)
        ensures
            out@ == load(
                match ids {
                    Some(v) => v@,
                    None => Seq::<u64>::empty(),
                },
                self.certs@,
            ),
    {
        let mut out: Vec<CertificateRecord> = Vec::new();
        match ids {
            None => {},
            Some(ids) => {
                let mut i: usize = 0;
                assert(ids@.take(0) =~= Seq::<u64>::empty());
                while i < ids.len()
                    invariant
                        i <= ids@.len(),
                        out@ == load(ids@.take(i as int), self.certs@),
                    decreases ids.len() - i,
                {
                    proof {
                        assert(ids@.take(i + 1).drop_last() =~= ids@.take(i as int));
                        assert(ids@.take(i + 1).last() == ids@[i as int]);
                    }
                    match self.certs.get(&ids[i]) {
                        Some(c) => out.push(*c),
                        None => {},
                    }
                    i = i + 1;
                }
                assert(ids@.take(i as int) =~= ids@);
            },
        }
        out
    }

    /// The certificates of a learner, oldest first.
    pub fn get_certificates_by_learner(&self, learner: AccountId) -> (out: Vec<CertificateRecord>)
        ensures
            out@ == load(ids_under(self.learner_certs@, learner), self.certs@),
    {
        self.load_certs(self.learner_certs.get(&learner))
    }

    /// The certificates of a skill, oldest first.
    pub fn get_certificates_by_skill(&self, skill: SymbolId) -> (out: Vec<CertificateRecord>)
        ensures
            out@ == load(ids_under(self.skill_certs@, skill), self.certs@),
    {
        self.load_certs(self.skill_certs.get(&skill))
    }
}

/// `rec` is, unchanged, the stored certificate of one of `ids`.
pub open spec fn stored_under(ids: Seq<u64>, certs: Map<u64, CertificateRecord>, rec: CertificateRecord) -> bool {
    exists|j: int| 0 <= j < ids.len() && #[trigger] certs.contains_key(ids[j]) && rec == certs[ids[j]]
}

/// A listing holds stored records only, unchanged: each record listed is
/// the stored certificate of one of the listed ids, revoked flag and all,
/// and no more records are listed than there are ids.
pub proof fn lemma_listed_records_are_stored(ids: Seq<u64>, certs: Map<u64, CertificateRecord>)
    ensures
        load(ids, certs).len() <= ids.len(),
        forall|i: int|
            0 <= i < load(ids, certs).len() ==> stored_under(ids, certs, #[trigger] load(ids, certs)[i]),
    decreases ids.len(),
{
    if ids.len() > 0 {
        let pre = ids.drop_last();
        lemma_listed_records_are_stored(pre, certs);
        let rest = load(pre, certs);
        assert forall|i: int| 0 <= i < load(ids, certs).len() implies stored_under(
            ids,
            certs,
            #[trigger] load(ids, certs)[i],
        ) by {
            if i < rest.len() {
                assert(stored_under(pre, certs, rest[i]));
                let j = choose|j: int|
                    0 <= j < pre.len() && #[trigger] certs.contains_key(pre[j]) && rest[i]
                        == certs[pre[j]];
                assert(ids[j] == pre[j]);
                assert(certs.contains_key(ids[j]));
            } else {
                assert(certs.contains_key(ids[ids.len() - 1]));
            }
        }
    }
}

/// When every listed id has a stored certificate (as every id an index
/// holds does), the listing is exactly those certificates, in the ids'
/// order: the record at position `i` is the stored record of the `i`-th id.
pub proof fn lemma_listing_follows_ids(ids: Seq<u64>, certs: Map<u64, CertificateRecord>)
    requires
        forall|j: int| 0 <= j < ids.len() ==> #[trigger] certs.contains_key(ids[j]),
    ensures
        load(ids, certs).len() == ids.len(),
        forall|i: int| 0 <= i < ids.len() ==> #[trigger] load(ids, certs)[i] == certs[ids[i]],
    decreases ids.len(),
{
    if ids.len() > 0 {
        let pre = ids.drop_last();
        assert forall|j: int| 0 <= j < pre.len() implies #[trigger] certs.contains_key(pre[j]) by {
            assert(pre[j] == ids[j]);
        }
        lemma_listing_follows_ids(pre, certs);
        assert(certs.contains_key(ids[ids.len() - 1]));
        assert forall|i: int| 0 <= i < ids.len() implies #[trigger] load(ids, certs)[i] == certs[ids[i]] by {
            if i < pre.len() {
                assert(pre[i] == ids[i]);
            }
        }
    }
}

} // verus!
