//! Certificate showcase: learners pick which of their certificates to show
//! publicly, anyone can check a showcased certificate, and the admin keeps a
//! short list of featured learners.
use std::collections::HashMap;
use vstd::prelude::*;

use crate::ids::{AccountId, Hash32};

verus! {

broadcast use vstd::std_specs::hash::group_hash_axioms;

/// How many learners may be featured.
pub const FEATURED_LEARNERS_LIMIT: u32 = 10;

#[derive(Clone, Debug, PartialEq, Eq)]
pub struct ShowcaseRecord {
    pub learner: AccountId,
    pub cert_ids: Vec<u64>,
}

#[derive(Copy, Clone, Debug, PartialEq, Eq, Structural)]
pub enum Rejection {
    AlreadyInitialized,
    NotInitialized,
    AlreadyShowcased,
    NotInShowcase,
    TooManyFeatured,
}

impl Rejection {
    /// The message with which the contract aborts.
    pub fn message(&self) -> (m: &'static str)
        ensures
            m == (match *self {
                Rejection::AlreadyInitialized => "already initialized",
                Rejection::NotInitialized => "not initialized",
                Rejection::AlreadyShowcased => "certificate already showcased",
                Rejection::NotInShowcase => "certificate not found in showcase",
                Rejection::TooManyFeatured => "too many featured learners",
            }),
    {
        match self {
            Rejection::AlreadyInitialized => "already initialized",
            Rejection::NotInitialized => "not initialized",
            Rejection::AlreadyShowcased => "certificate already showcased",
            Rejection::NotInShowcase => "certificate not found in showcase",
            Rejection::TooManyFeatured => "too many featured learners",
        }
    }
}

/// Byte `i` (least significant first) of `x`.
pub open spec fn le_byte(x: u64, i: int) -> u8 {
    ((x >> ((8 * i) as u64)) & 0xff) as u8
}

/// Whether an id differs from `cert_id`.
pub open spec fn other_id(cert_id: u64) -> spec_fn(u64) -> bool {
    |id: u64| id != cert_id
}

/// `ids` without `cert_id`.
pub open spec fn without_id(ids: Seq<u64>, cert_id: u64) -> Seq<u64> {
    ids.filter(other_id(cert_id))
}

/// No id occurs twice.
pub open spec fn distinct_ids(ids: Seq<u64>) -> bool {
    forall|i: int, j: int| 0 <= i < j < ids.len() ==> #[trigger] ids[i] != #[trigger] ids[j]
}

proof fn lemma_without_keeps_distinct(ids: Seq<u64>, cert_id: u64)
    requires
        distinct_ids(ids),
    ensures
        distinct_ids(without_id(ids, cert_id)),
    decreases ids.len(),
{
    reveal_with_fuel(Seq::<_>::filter, 1);
    if ids.len() > 0 {
        let init = ids.drop_last();
        assert(distinct_ids(init));
        lemma_without_keeps_distinct(init, cert_id);
        let sub = without_id(init, cert_id);
        if other_id(cert_id)(ids.last()) {
            let t = sub.push(ids.last());
            assert(without_id(ids, cert_id) == t);
            assert forall|i: int, j: int| 0 <= i < j < t.len() implies #[trigger] t[i]
                != #[trigger] t[j] by {
                if j == t.len() - 1 {
                    init.lemma_filter_contains_rev(other_id(cert_id), sub[i]);
                    let k = choose|k: int| 0 <= k < init.len() && init[k] == sub[i];
                    assert(ids[k] == init[k]);
                    assert(ids[ids.len() - 1] == ids.last());
                    assert(t[i] == sub[i]);
                } else {
                    assert(t[i] == sub[i] && t[j] == sub[j]);
                }
            }
        } else {
            assert(without_id(ids, cert_id) == sub);
        }
    }
}

/// The deterministic QR-verification hash of a certificate: its id in
/// little-endian order in the first eight bytes, zeros after.
pub fn generate_verification_url_hash(cert_id: u64) -> (h: Hash32)
    ensures
        forall|i: int| 0 <= i < 8 ==> #[trigger] h@[i] == le_byte(cert_id, i),
        forall|i: int| 8 <= i < 32 ==> #[trigger] h@[i] == 0,
{
    let mut bytes: Hash32 = [0u8; 32];
    let mut i: usize = 0;
    while i < 8
        invariant
            i <= 8,
            bytes@.len() == 32,
            forall|j: int| 0 <= j < i ==> #[trigger] bytes@[j] == le_byte(cert_id, j),
            forall|j: int| 8 <= j < 32 ==> #[trigger] bytes@[j] == 0,
        decreases 8 - i,
    {
        let shift: u64 = (8 * i) as u64;
        let masked: u64 = (cert_id >> shift) & 0xff;
        assert(masked <= 0xff) by (bit_vector)
            requires
                masked == (cert_id >> shift) & 0xff,
        ;
        bytes[i] = masked as u8;
        i = i + 1;
    }
    bytes
}

/// The showcase contract's stored state.
pub struct CertShowcase {
    pub admin: Option<AccountId>,
    pub certificates_contract: Option<AccountId>,
    /// Each learner's showcased certificate ids; no learner maps to an
    /// empty list.
    pub showcases: HashMap<AccountId, Vec<u64>>,
    pub featured: Vec<AccountId>,
}

impl CertShowcase {
    /// The showcased certificates of `learner`, in the order they were added.
    pub open spec fn showcase_of(&self, learner: AccountId) -> Seq<u64> {
        if self.showcases@.contains_key(learner) {
            self.showcases@[learner]@
        } else {
            Seq::empty()
        }
    }

    /// Every stored showcase is non-empty and shows each certificate once.
    pub open spec fn well_formed(&self) -> bool {
        forall|l: AccountId|
            #[trigger] self.showcases@.contains_key(l) ==> self.showcases@[l]@.len() > 0
                && distinct_ids(self.showcases@[l]@)
    }

    /// A contract that has not been initialized.
    pub fn new() -> (s: Self)
        ensures
            s.well_formed(),
            s.admin is None,
            s.certificates_contract is None,
            s.showcases@ == Map::<AccountId, Vec<u64>>::empty(),
            s.featured@ == Seq::<AccountId>::empty(),
    {
        CertShowcase {
            admin: None,
            certificates_contract: None,
            showcases: HashMap::new(),
            featured: Vec::new(),
        }
    }

    pub fn initialize(&mut self, admin: AccountId, certificates_contract: AccountId) -> (r: Result<
        (),
        Rejection,
    >)
        requires
            old(self).well_formed(),
        ensures
            final(self).well_formed(),
            r == (if old(self).admin is Some {
                Err(Rejection::AlreadyInitialized)
            } else {
                Ok(())
            }),
            r is Ok ==> final(self).admin == Some(admin) && final(self).certificates_contract == Some(
                certificates_contract,
            ),
            r is Err ==> final(self).admin == old(self).admin && final(self).certificates_contract
                == old(self).certificates_contract,
            final(self).showcases@ == old(self).showcases@,
            final(self).featured@ == old(self).featured@,
    {
        if self.admin.is_some() {
            return Err(Rejection::AlreadyInitialized);
        }
        self.admin = Some(admin);
        self.certificates_contract = Some(certificates_contract);
        Ok(())
    }

    fn position(ids: &Vec<u64>, cert_id: u64) -> (found: bool)
        ensures
            found == ids@.contains(cert_id),
    {
        let mut i: usize = 0;
        while i < ids.len()
            invariant
                i <= ids@.len(),
                forall|j: int| 0 <= j < i ==> #[trigger] ids@[j] != cert_id,
            decreases ids.len() - i,
        {
            if ids[i] == cert_id {
                return true;
            }
            i = i + 1;
        }
        false
    }

    /// Add a certificate to `learner`'s showcase (the host checks the
    /// learner's authorization).
    pub fn showcase(&mut self, learner: AccountId, cert_id: u64) -> (r: Result<(), Rejection>)
        requires
            old(self).well_formed(),
        ensures
            final(self).well_formed(),
            r == (if old(self).showcase_of(learner).contains(cert_id) {
                Err(Rejection::AlreadyShowcased)
            } else {
                Ok(())
            }),
            r is Ok ==> final(self).showcases@.dom() == old(self).showcases@.dom().insert(learner),
            forall|l: AccountId|
                #[trigger] final(self).showcase_of(l) == if r is Ok && l == learner {
                    old(self).showcase_of(l).push(cert_id)
                } else {
                    old(self).showcase_of(l)
                },
            r is Err ==> final(self).showcases@ == old(self).showcases@,
            final(self).admin == old(self).admin,
            final(self).certificates_contract == old(self).certificates_contract,
            final(self).featured@ == old(self).featured@,
    {
        let already = match self.showcases.get(&learner) {
            Some(ids) => Self::position(ids, cert_id),
            None => false,
        };
        if already {
            return Err(Rejection::AlreadyShowcased);
        }
        let mut ids = match self.showcases.remove(&learner) {
            Some(v) => v,
            None => Vec::new(),
        };
        let ghost before = ids@;
        ids.push(cert_id);
        proof {
            assert(before == old(self).showcase_of(learner));
            assert(old(self).showcases@.contains_key(learner) ==> distinct_ids(before));
            assert(distinct_ids(ids@)) by {
                assert forall|i: int, j: int| 0 <= i < j < ids@.len() implies #[trigger] ids@[i]
                    != #[trigger] ids@[j] by {
                    if j == ids@.len() - 1 {
                        assert(before[i] == ids@[i]);
                        assert(before.contains(before[i]));
                    } else {
                        assert(before[i] == ids@[i] && before[j] == ids@[j]);
                    }
                }
            }
        }
        self.showcases.insert(learner, ids);
        proof {
            assert forall|l: AccountId| #[trigger] self.showcases@.contains_key(l) implies self.showcases@[l]@.len() > 0
                && distinct_ids(self.showcases@[l]@) by {
                if l != learner {
                    assert(old(self).showcases@.contains_key(l));
                }
            }
        }
        Ok(())
    }

    /// Take a certificate out of `learner`'s showcase (the host checks the
    /// learner's authorization).
    pub fn hide_certificate(&mut self, learner: AccountId, cert_id: u64) -> (r: Result<(), Rejection>)
        requires
            old(self).well_formed(),
        ensures
            final(self).well_formed(),
            r == (if old(self).showcase_of(learner).contains(cert_id) {
                Ok(())
            } else {
                Err(Rejection::NotInShowcase)
            }),
            forall|l: AccountId|
                #[trigger] final(self).showcase_of(l) == if r is Ok && l == learner {
                    without_id(old(self).showcase_of(l), cert_id)
                } else {
                    old(self).showcase_of(l)
                },
            r is Ok ==> (final(self).showcases@.contains_key(learner) <==> without_id(
                old(self).showcase_of(learner),
                cert_id,
            ).len() > 0),
            r is Ok ==> forall|l: AccountId|
                l != learner ==> (#[trigger] final(self).showcases@.contains_key(l) <==> old(self).showcases@.contains_key(l)),
            r is Err ==> final(self).showcases@ == old(self).showcases@,
            final(self).admin == old(self).admin,
            final(self).certificates_contract == old(self).certificates_contract,
            final(self).featured@ == old(self).featured@,
    {
        let ghost s = self.showcase_of(learner);
        let mut kept: Vec<u64> = Vec::new();
        let mut found = false;
        match self.showcases.get(&learner) {
            None => {},
            Some(ids) => {
                let mut i: usize = 0;
                assert(ids@.take(0) =~= Seq::<u64>::empty());
                while i < ids.len()
                    invariant
                        i <= ids@.len(),
                        ids@ == s,
                        kept@ == without_id(ids@.take(i as int), cert_id),
                        found == ids@.take(i as int).contains(cert_id),
                    decreases ids.len() - i,
                {
                    proof {
                        reveal_with_fuel(Seq::<_>::filter, 1);
                        assert(ids@.take(i + 1).drop_last() =~= ids@.take(i as int));
                        assert(ids@.take(i + 1).last() == ids@[i as int]);
                        assert(ids@.take(i + 1) =~= ids@.take(i as int).push(ids@[i as int]));
                        vstd::seq_lib::lemma_seq_contains_after_push(ids@.take(i as int), ids@[i as int], cert_id);
                    }
                    if ids[i] != cert_id {
                        kept.push(ids[i]);
                    } else {
                        found = true;
                    }
                    i = i + 1;
                }
                assert(ids@.take(i as int) =~= ids@);
            },
        }
        if !found {
            return Err(Rejection::NotInShowcase);
        }
        proof {
            if old(self).showcases@.contains_key(learner) {
                assert(distinct_ids(s));
                lemma_without_keeps_distinct(s, cert_id);
            }
        }
        if kept.len() == 0 {
            self.showcases.remove(&learner);
            proof {
                assert(kept@ =~= Seq::<u64>::empty());
            }
        } else {
            self.showcases.insert(learner, kept);
        }
        proof {
            assert forall|l: AccountId| #[trigger] self.showcases@.contains_key(l) implies self.showcases@[l]@.len() > 0
                && distinct_ids(self.showcases@[l]@) by {
                if l != learner {
                    assert(old(self).showcases@.contains_key(l));
                }
            }
        }
        Ok(())
    }

    /// The showcased certificates of `learner`.
    pub fn get_showcase(&self, learner: AccountId) -> (out: Vec<u64>)
        ensures
            out@ == self.showcase_of(learner),
    {
        match self.showcases.get(&learner) {
            Some(v) => v.clone(),
            None => Vec::new(),
        }
    }

    /// Whether `cert_id` is in `learner`'s showcase.
    pub fn verify_showcase_cert(&self, learner: AccountId, cert_id: u64) -> (b: bool)
        ensures
            b == self.showcase_of(learner).contains(cert_id),
    {
        match self.showcases.get(&learner) {
            Some(ids) => Self::position(ids, cert_id),
            None => false,
        }
    }

    /// The featured learners.
    pub fn get_featured_learners(&self) -> (out: Vec<AccountId>)
        ensures
            out@ == self.featured@,
    {
        self.featured.clone()
    }

    /// Replace the featured learners (the host checks the admin's
    /// authorization).  Returns how many are featured, for the event.
    pub fn update_featured_learners(&mut self, learners: Vec<AccountId>) -> (r: Result<u32, Rejection>)
        requires
            old(self).well_formed(),
        ensures
            final(self).well_formed(),
            r == (if old(self).admin is None {
                Err(Rejection::NotInitialized)
            } else if learners@.len() > FEATURED_LEARNERS_LIMIT {
                Err(Rejection::TooManyFeatured)
            } else {
                Ok(learners@.len() as u32)
            }),
            final(self).featured@ == (if r is Ok {
                learners@
            } else {
                old(self).featured@
            }),
            final(self).admin == old(self).admin,
            final(self).certificates_contract == old(self).certificates_contract,
            final(self).showcases@ == old(self).showcases@,
    {
        if self.admin.is_none() {
            return Err(Rejection::NotInitialized);
        }
        if learners.len() > FEATURED_LEARNERS_LIMIT as usize {
            return Err(Rejection::TooManyFeatured);
        }
        let n = learners.len() as u32;
        self.featured = learners;
        Ok(n)
    }
}

} // verus!
