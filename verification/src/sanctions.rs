//! Sanctions screening: the admin keeps a list of SHA-256 hashes of
//! sanctioned addresses, and anyone can check an address against it.
use vstd::prelude::*;

use crate::digest::{sha256, sha256_digest, MAX_HASH_INPUT};
use crate::ids::{hash_eq, AccountId, Hash32};

verus! {

/// How many hashes one batch may add.
pub const MAX_BATCH: u32 = 100;

#[derive(Copy, Clone, Debug, PartialEq, Eq, Structural)]
pub enum Rejection {
    AlreadyInitialized,
    NotInitialized,
    BatchTooLarge,
}

impl Rejection {
    /// The message with which the contract aborts.
    pub fn message(&self) -> (m: &'static str)
        ensures
            m == (match *self {
                Rejection::AlreadyInitialized => "already initialized",
                Rejection::NotInitialized => "not initialized",
                Rejection::BatchTooLarge => "batch exceeds 100",
            }),
    {
        match self {
            Rejection::AlreadyInitialized => "already initialized",
            Rejection::NotInitialized => "not initialized",
            Rejection::BatchTooLarge => "batch exceeds 100",
        }
    }
}

/// The hash under which an address is listed: SHA-256 of its XDR encoding.
pub fn hash_address(address_xdr: &[u8]) -> (h: Hash32)
    requires
        address_xdr@.len() <= MAX_HASH_INPUT,
    ensures
        h@ == sha256_digest(address_xdr@),
{
    sha256(address_xdr)
}

/// The hashes held by a list.
pub open spec fn views(list: Seq<Hash32>) -> Seq<Seq<u8>> {
    list.map_values(|h: Hash32| h@)
}

/// The sanctions contract's stored state.
pub struct Sanctions {
    pub admin: Option<AccountId>,
    /// The listed hashes.
    pub list: Vec<Hash32>,
}

impl Sanctions {
    /// Whether `h` is listed.
    pub open spec fn listed(&self, h: Seq<u8>) -> bool {
        views(self.list@).contains(h)
    }

    /// A contract that has not been initialized.
    pub fn new() -> (s: Self)
        ensures
            s.admin is None,
            forall|h: Seq<u8>| !#[trigger] s.listed(h),
    {
        let s = Sanctions { admin: None, list: Vec::new() };
        assert(views(s.list@) =~= Seq::<Seq<u8>>::empty());
        s
    }

    pub fn initialize(&mut self, admin: AccountId) -> (r: Result<(), Rejection>)
        ensures
            r == (if old(self).admin is Some {
                Err(Rejection::AlreadyInitialized)
            } else {
                Ok(())
            }),
            final(self).admin == (if r is Ok {
                Some(admin)
            } else {
                old(self).admin
            }),
            final(self).list@ == old(self).list@,
    {
        if self.admin.is_some() {
            return Err(Rejection::AlreadyInitialized);
        }
        self.admin = Some(admin);
        Ok(())
    }

    /// The admin, whose authorization the host then checks.
    pub fn require_admin(&self) -> (r: Result<AccountId, Rejection>)
        ensures
            r == (match self.admin {
                Some(a) => Ok::<AccountId, Rejection>(a),
                None => Err(Rejection::NotInitialized),
            }),
    {
        match self.admin {
            Some(a) => Ok(a),
            None => Err(Rejection::NotInitialized),
        }
    }

    fn position(&self, h: &Hash32) -> (r: Option<usize>)
        ensures
            match r {
                Some(i) => i < self.list@.len() && self.list@[i as int]@ == h@ && self.listed(h@),
                None => !self.listed(h@),
            },
    {
        let mut i: usize = 0;
        while i < self.list.len()
            invariant
                i <= self.list@.len(),
                forall|j: int| 0 <= j < i ==> #[trigger] self.list@[j]@ != h@,
            decreases self.list.len() - i,
        {
            if hash_eq(&self.list[i], h) {
                proof {
                    assert(views(self.list@)[i as int] == h@);
                }
                return Some(i);
            }
            i = i + 1;
        }
        proof {
            if self.listed(h@) {
                let v = views(self.list@);
                let j = choose|j: int| 0 <= j < v.len() && v[j] == h@;
                assert(self.list@[j]@ == h@);
            }
        }
        None
    }

    fn insert(&mut self, h: Hash32)
        ensures
            forall|x: Seq<u8>| #[trigger] final(self).listed(x) == (old(self).listed(x) || x == h@),
            final(self).admin == old(self).admin,
    {
        if self.position(&h).is_none() {
            self.list.push(h);
            proof {
                let v = views(self.list@);
                let ov = views(old(self).list@);
                assert(v =~= ov.push(h@));
                assert forall|x: Seq<u8>| #[trigger] self.listed(x) == (old(self).listed(x) || x
                    == h@) by {
                    vstd::seq_lib::lemma_seq_contains_after_push(ov, h@, x);
                }
            }
        }
    }

    /// List a hash (admin only).
    pub fn add_to_list(&mut self, address_hash: Hash32) -> (r: Result<(), Rejection>)
        ensures
            r == (if old(self).admin is Some {
                Ok(())
            } else {
                Err(Rejection::NotInitialized)
            }),
            forall|x: Seq<u8>|
                #[trigger] final(self).listed(x) == (old(self).listed(x) || (r is Ok && x
                    == address_hash@)),
            final(self).admin == old(self).admin,
    {
        self.require_admin()?;
        self.insert(address_hash);
        Ok(())
    }

    /// Take a hash off the list (admin only).
    pub fn remove_from_list(&mut self, address_hash: Hash32) -> (r: Result<(), Rejection>)
        ensures
            r == (if old(self).admin is Some {
                Ok(())
            } else {
                Err(Rejection::NotInitialized)
            }),
            forall|x: Seq<u8>|
                #[trigger] final(self).listed(x) == (old(self).listed(x) && !(r is Ok && x
                    == address_hash@)),
            final(self).admin == old(self).admin,
    {
        self.require_admin()?;
        let mut kept: Vec<Hash32> = Vec::new();
        let mut i: usize = 0;
        let ghost old_list = self.list@;
        while i < self.list.len()
            invariant
                i <= old_list.len(),
                self.list@ == old_list,
                forall|x: Seq<u8>|
                    #[trigger] views(kept@).contains(x) == (views(old_list.take(i as int)).contains(x)
                        && x != address_hash@),
            decreases old_list.len() - i,
        {
            let h = self.list[i];
            let ghost pre = views(old_list.take(i as int));
            let ghost before = views(kept@);
            proof {
                assert(views(old_list.take(i + 1)) =~= pre.push(h@));
            }
            if !hash_eq(&h, &address_hash) {
                kept.push(h);
                proof {
                    assert(views(kept@) =~= before.push(h@));
                }
            }
            proof {
                assert forall|x: Seq<u8>| #[trigger] views(kept@).contains(x) == (views(
                    old_list.take(i + 1),
                ).contains(x) && x != address_hash@) by {
                    vstd::seq_lib::lemma_seq_contains_after_push(pre, h@, x);
                    vstd::seq_lib::lemma_seq_contains_after_push(before, h@, x);
                    assert(before.contains(x) == (pre.contains(x) && x != address_hash@));
                }
            }
            i = i + 1;
        }
        assert(old_list.take(i as int) =~= old_list);
        self.list = kept;
        Ok(())
    }

    /// List up to a hundred hashes at once (admin only).
    pub fn add_batch(&mut self, hashes: &Vec<Hash32>) -> (r: Result<(), Rejection>)
        ensures
            r == (if old(self).admin is None {
                Err(Rejection::NotInitialized)
            } else if hashes@.len() > MAX_BATCH {
                Err(Rejection::BatchTooLarge)
            } else {
                Ok(())
            }),
            forall|x: Seq<u8>|
                #[trigger] final(self).listed(x) == (old(self).listed(x) || (r is Ok && views(
                    hashes@,
                ).contains(x))),
            final(self).admin == old(self).admin,
    {
        self.require_admin()?;
        if hashes.len() > MAX_BATCH as usize {
            return Err(Rejection::BatchTooLarge);
        }
        let mut i: usize = 0;
        while i < hashes.len()
            invariant
                i <= hashes@.len(),
                self.admin == old(self).admin,
                forall|x: Seq<u8>|
                    #[trigger] self.listed(x) == (old(self).listed(x) || views(
                        hashes@.take(i as int),
                    ).contains(x)),
            decreases hashes.len() - i,
        {
            let h = hashes[i];
            proof {
                let pre = views(hashes@.take(i as int));
                assert(views(hashes@.take(i + 1)) =~= pre.push(h@));
                assert forall|x: Seq<u8>| views(hashes@.take(i + 1)).contains(x) == (pre.contains(x)
                    || x == h@) by {
                    vstd::seq_lib::lemma_seq_contains_after_push(pre, h@, x);
                }
            }
            self.insert(h);
            i = i + 1;
        }
        assert(hashes@.take(i as int) =~= hashes@);
        Ok(())
    }

    /// Whether a hash is listed.
    pub fn is_listed(&self, address_hash: &Hash32) -> (b: bool)
        ensures
            b == self.listed(address_hash@),
    {
        self.position(address_hash).is_some()
    }

    /// Whether the address with this XDR encoding is sanctioned.
    pub fn is_sanctioned(&self, address_xdr: &[u8]) -> (b: bool)
        requires
            address_xdr@.len() <= MAX_HASH_INPUT,
        ensures
            b == self.listed(sha256_digest(address_xdr@)),
    {
        let h = hash_address(address_xdr);
        self.is_listed(&h)
    }
}

/// Listing a hash and then taking it off again leaves it unlisted, and
/// leaves every other hash as it was before.
pub proof fn lemma_remove_undoes_add(before: Sanctions, middle: Sanctions, after: Sanctions, h: Seq<u8>)
    requires
        forall|x: Seq<u8>| #[trigger] middle.listed(x) == (before.listed(x) || x == h),
        forall|x: Seq<u8>| #[trigger] after.listed(x) == (middle.listed(x) && x != h),
    ensures
        !after.listed(h),
        forall|x: Seq<u8>| x != h ==> (#[trigger] after.listed(x) == before.listed(x)),
{
    assert(!after.listed(h));
    assert forall|x: Seq<u8>| x != h implies (#[trigger] after.listed(x) == before.listed(x)) by {
        assert(middle.listed(x) == before.listed(x));
    }
}

} // verus!
