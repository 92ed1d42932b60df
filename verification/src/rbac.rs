//! Role-based access control: a super admin (and holders of the
//! `SUPER_ADMIN` role) grant and revoke named roles, and other contracts ask
//! whether an account holds a role.
use vstd::prelude::*;

use crate::ids::AccountId;

verus! {

#[derive(Copy, Clone, Debug, PartialEq, Eq, Structural)]
pub enum Error {
    AlreadyInitialized,
    Unauthorized,
    RoleNotGranted,
}

/// The members of `role` in a role table (keys occur at most once).
pub open spec fn members_in(table: Seq<(Seq<char>, Seq<AccountId>)>, role: Seq<char>) -> Seq<
    AccountId,
> {
    if exists|i: int| 0 <= i < table.len() && #[trigger] table[i].0 == role {
        table[choose|i: int| 0 <= i < table.len() && #[trigger] table[i].0 == role].1
    } else {
        Seq::empty()
    }
}

/// `members` with `account` added unless it is already there.
pub open spec fn with_member(members: Seq<AccountId>, account: AccountId) -> Seq<AccountId> {
    if members.contains(account) {
        members
    } else {
        members.push(account)
    }
}

/// Whether a member is someone other than `account`.
pub open spec fn other_than(account: AccountId) -> spec_fn(AccountId) -> bool {
    |m: AccountId| m != account
}

/// `members` without `account`.
pub open spec fn without_member(members: Seq<AccountId>, account: AccountId) -> Seq<AccountId> {
    members.filter(other_than(account))
}

/// Revoking a role right after granting it leaves `account` without the
/// role and every other member as before.
pub proof fn lemma_revoke_undoes_grant(members: Seq<AccountId>, account: AccountId)
    ensures
        !without_member(with_member(members, account), account).contains(account),
        forall|x: AccountId|
            x != account ==> (#[trigger] without_member(with_member(members, account), account).contains(
                x,
            ) == members.contains(x)),
{
    let w = with_member(members, account);
    if without_member(w, account).contains(account) {
        w.lemma_filter_contains_rev(other_than(account), account);
        let i = choose|i: int| 0 <= i < without_member(w, account).len() && without_member(w, account)[i] == account;
        w.lemma_filter_pred(other_than(account), i);
    }
    assert forall|x: AccountId| x != account implies (#[trigger] without_member(w, account).contains(x)
        == members.contains(x)) by {
        if without_member(w, account).contains(x) {
            w.lemma_filter_contains_rev(other_than(account), x);
            if !members.contains(x) {
                let j = choose|j: int| 0 <= j < w.len() && w[j] == x;
                assert(j == members.len());
            }
        }
        if members.contains(x) {
            let j = choose|j: int| 0 <= j < members.len() && members[j] == x;
            assert(w[j] == x);
            w.lemma_filter_contains(other_than(account), j);
        }
    }
}

/// No role occurs twice in a role table.
pub open spec fn roles_distinct(t: Seq<(Seq<char>, Seq<AccountId>)>) -> bool {
    forall|i: int, j: int| 0 <= i < j < t.len() ==> #[trigger] t[i].0 != #[trigger] t[j].0
}

proof fn lemma_found(t: Seq<(Seq<char>, Seq<AccountId>)>, i: int, role: Seq<char>)
    requires
        roles_distinct(t),
        0 <= i < t.len(),
        t[i].0 == role,
    ensures
        members_in(t, role) == t[i].1,
{
    let c = choose|j: int| 0 <= j < t.len() && #[trigger] t[j].0 == role;
    if c != i {
        if c < i {
            assert(t[c].0 != t[i].0);
        } else {
            assert(t[i].0 != t[c].0);
        }
    }
}

pub open spec fn entry_view(e: (String, Vec<AccountId>)) -> (Seq<char>, Seq<AccountId>) {
    (e.0@, e.1@)
}

/// The role-based access control contract's stored state.
pub struct RbacContract {
    super_admin: Option<AccountId>,
    roles: Vec<(String, Vec<AccountId>)>,
}

impl RbacContract {
    #[verifier::type_invariant]
    spec fn inv(&self) -> bool {
        roles_distinct(self.table())
    }

    spec fn table(&self) -> Seq<(Seq<char>, Seq<AccountId>)> {
        self.roles@.map_values(|e: (String, Vec<AccountId>)| entry_view(e))
    }

    /// The account set at initialization.
    pub closed spec fn super_admin_of(&self) -> Option<AccountId> {
        self.super_admin
    }

    /// The members of `role`, in the order they were granted it.
    pub closed spec fn members(&self, role: Seq<char>) -> Seq<AccountId> {
        members_in(self.table(), role)
    }

    /// Whether `caller` may grant and revoke roles.
    pub open spec fn is_super_admin(&self, caller: AccountId) -> bool {
        &&& self.super_admin_of() is Some
        &&& (self.super_admin_of() == Some(caller) || self.members("SUPER_ADMIN"@).contains(
            caller,
        ))
    }

    /// A contract that has not been initialized.
    pub fn new() -> (s: Self)
        ensures
            s.super_admin_of() is None,
            forall|role: Seq<char>| #[trigger] s.members(role) == Seq::<AccountId>::empty(),
    {
        let s = RbacContract { super_admin: None, roles: Vec::new() };
        assert(s.table() =~= Seq::<(Seq<char>, Seq<AccountId>)>::empty());
        s
    }

    pub fn super_admin_role() -> (r: String)
        ensures
            r@ == "SUPER_ADMIN"@,
    {
        String::from_str("SUPER_ADMIN")
    }

    pub fn escrow_admin_role() -> (r: String)
        ensures
            r@ == "ESCROW_ADMIN"@,
    {
        String::from_str("ESCROW_ADMIN")
    }

    pub fn dispute_resolver_role() -> (r: String)
        ensures
            r@ == "DISPUTE_RESOLVER"@,
    {
        String::from_str("DISPUTE_RESOLVER")
    }

    pub fn oracle_admin_role() -> (r: String)
        ensures
            r@ == "ORACLE_ADMIN"@,
    {
        String::from_str("ORACLE_ADMIN")
    }

    pub fn oracle_feeder_role() -> (r: String)
        ensures
            r@ == "ORACLE_FEEDER"@,
    {
        String::from_str("ORACLE_FEEDER")
    }

    pub fn kyc_operator_role() -> (r: String)
        ensures
            r@ == "KYC_OPERATOR"@,
    {
        String::from_str("KYC_OPERATOR")
    }

    pub fn session_oracle_role() -> (r: String)
        ensures
            r@ == "SESSION_ORACLE"@,
    {
        String::from_str("SESSION_ORACLE")
    }

    fn find(&self, role: &str) -> (r: Option<usize>)
        ensures
            match r {
                Some(i) => i < self.table().len() && self.table()[i as int].0 == role@,
                None => forall|i: int|
                    0 <= i < self.table().len() ==> #[trigger] self.table()[i].0 != role@,
            },
    {
        let key = String::from_str(role);
        let mut i: usize = 0;
        while i < self.roles.len()
            invariant
                i <= self.roles@.len(),
                key@ == role@,
                forall|j: int| 0 <= j < i ==> #[trigger] self.roles@[j].0@ != role@,
            decreases self.roles.len() - i,
        {
            if self.roles[i].0 == key {
                return Some(i);
            }
            i = i + 1;
        }
        None
    }

    fn contains(members: &Vec<AccountId>, account: AccountId) -> (b: bool)
        ensures
            b == members@.contains(account),
    {
        let mut i: usize = 0;
        while i < members.len()
            invariant
                i <= members@.len(),
                forall|j: int| 0 <= j < i ==> #[trigger] members@[j] != account,
            decreases members.len() - i,
        {
            if members[i] == account {
                return true;
            }
            i = i + 1;
        }
        false
    }

    /// Whether `account` holds `role`.
    pub fn has_role(&self, role: &str, account: AccountId) -> (b: bool)
        ensures
            b == self.members(role@).contains(account),
    {
        match self.find(role) {
            Some(i) => {
                proof {
                    use_type_invariant(self);
                    lemma_found(self.table(), i as int, role@);
                }
                Self::contains(&self.roles[i].1, account)
            },
            None => false,
        }
    }

    /// The members of `role`, in the order they were granted it.
    pub fn get_role_members(&self, role: &str) -> (out: Vec<AccountId>)
        ensures
            out@ == self.members(role@),
    {
        match self.find(role) {
            Some(i) => {
                proof {
                    use_type_invariant(self);
                    lemma_found(self.table(), i as int, role@);
                }
                self.roles[i].1.clone()
            },
            None => Vec::new(),
        }
    }

    /// Grant `role` to `account`.
    pub fn grant_internal(&mut self, role: &str, account: AccountId)
        ensures
            forall|r: Seq<char>|
                #[trigger] final(self).members(r) == if r == role@ {
                    with_member(old(self).members(r), account)
                } else {
                    old(self).members(r)
                },
            final(self).super_admin_of() == old(self).super_admin_of(),
    {
        proof {
            use_type_invariant(&*self);
        }
        let ghost t = self.table();
        let found = self.find(role);
        let mut roles: Vec<(String, Vec<AccountId>)> = Vec::new();
        std::mem::swap(&mut roles, &mut self.roles);
        match found {
            Some(i) => {
                let mut members = roles[i].1.clone();
                if !Self::contains(&members, account) {
                    members.push(account);
                }
                let ghost m = members@;
                let key = String::from_str(role);
                roles.set(i, (key, members));
                proof {
                    let nt = roles@.map_values(|e: (String, Vec<AccountId>)| entry_view(e));
                    assert(nt =~= t.update(i as int, (role@, m)));
                    assert forall|a: int, b: int| 0 <= a < b < nt.len() implies #[trigger] nt[a].0
                        != #[trigger] nt[b].0 by {
                        assert(t[a].0 != t[b].0);
                    }
                }
                self.roles = roles;
                proof {
                    let nt = self.table();
                    assert forall|r: Seq<char>| #[trigger] self.members(r) == if r == role@ {
                        with_member(members_in(t, r), account)
                    } else {
                        members_in(t, r)
                    } by {
                        let ci = choose|j: int| 0 <= j < t.len() && #[trigger] t[j].0 == role@;
                        if ci != i {
                            if ci < i {
                                assert(t[ci].0 != t[i as int].0);
                            } else {
                                assert(t[i as int].0 != t[ci].0);
                            }
                        }
                        if r == role@ {
                            lemma_found(nt, i as int, r);
                        } else if exists|j: int| 0 <= j < t.len() && #[trigger] t[j].0 == r {
                            let j = choose|j: int| 0 <= j < t.len() && #[trigger] t[j].0 == r;
                            assert(nt[j].0 == r);
                            lemma_found(nt, j, r);
                        } else {
                            assert forall|j: int| 0 <= j < nt.len() implies #[trigger] nt[j].0 != r by {
                                if j != i {
                                    assert(nt[j] == t[j]);
                                }
                            }
                        }
                    }
                }
            },
            None => {
                let mut members: Vec<AccountId> = Vec::new();
                members.push(account);
                let ghost m = members@;
                let key = String::from_str(role);
                roles.push((key, members));
                proof {
                    let nt = roles@.map_values(|e: (String, Vec<AccountId>)| entry_view(e));
                    assert(nt =~= t.push((role@, m)));
                    assert forall|a: int, b: int| 0 <= a < b < nt.len() implies #[trigger] nt[a].0
                        != #[trigger] nt[b].0 by {
                        if b < t.len() {
                            assert(t[a].0 != t[b].0);
                        }
                    }
                }
                self.roles = roles;
                proof {
                    let nt = self.table();
                    assert(m =~= with_member(Seq::<AccountId>::empty(), account));
                    assert forall|r: Seq<char>| #[trigger] self.members(r) == if r == role@ {
                        with_member(members_in(t, r), account)
                    } else {
                        members_in(t, r)
                    } by {
                        if r == role@ {
                            lemma_found(nt, t.len() as int, r);
                        } else if exists|j: int| 0 <= j < t.len() && #[trigger] t[j].0 == r {
                            let j = choose|j: int| 0 <= j < t.len() && #[trigger] t[j].0 == r;
                            assert(nt[j].0 == r);
                            lemma_found(nt, j, r);
                        } else {
                            assert forall|j: int| 0 <= j < nt.len() implies #[trigger] nt[j].0 != r by {
                                if j < t.len() {
                                    assert(nt[j] == t[j]);
                                }
                            }
                        }
                    }
                }
            },
        }
    }

    /// Set the super admin (whose authorization the host checks) and grant
    /// it the `SUPER_ADMIN` role.
    pub fn initialize(&mut self, super_admin: AccountId) -> (r: Result<(), Error>)
        ensures
            r == (if old(self).super_admin_of() is Some {
                Err(Error::AlreadyInitialized)
            } else {
                Ok(())
            }),
            r is Ok ==> final(self).super_admin_of() == Some(super_admin) && forall|role: Seq<char>|
                #[trigger] final(self).members(role) == if role == "SUPER_ADMIN"@ {
                    with_member(old(self).members(role), super_admin)
                } else {
                    old(self).members(role)
                },
            r is Err ==> final(self).super_admin_of() == old(self).super_admin_of() && forall|
                role: Seq<char>,
            | #[trigger] final(self).members(role) == old(self).members(role),
    {
        proof {
            use_type_invariant(&*self);
        }
        if self.super_admin.is_some() {
            return Err(Error::AlreadyInitialized);
        }
        self.super_admin = Some(super_admin);
        let role = Self::super_admin_role();
        self.grant_internal(role.as_str(), super_admin);
        Ok(())
    }

    /// Fails unless `caller` (whose authorization the host checks) is the
    /// super admin or holds the `SUPER_ADMIN` role.
    pub fn require_super_admin(&self, caller: AccountId) -> (r: Result<(), Error>)
        ensures
            r == (if self.is_super_admin(caller) {
                Ok(())
            } else {
                Err(Error::Unauthorized)
            }),
    {
        match self.super_admin {
            None => Err(Error::Unauthorized),
            Some(a) => {
                let role = Self::super_admin_role();
                if a != caller && !self.has_role(role.as_str(), caller) {
                    return Err(Error::Unauthorized);
                }
                Ok(())
            },
        }
    }

    /// Grant `role` to `account` (super admins only).
    pub fn grant_role(&mut self, caller: AccountId, role: &str, account: AccountId) -> (r: Result<
        (),
        Error,
    >)
        ensures
            r == (if old(self).is_super_admin(caller) {
                Ok(())
            } else {
                Err(Error::Unauthorized)
            }),
            forall|x: Seq<char>|
                #[trigger] final(self).members(x) == if r is Ok && x == role@ {
                    with_member(old(self).members(x), account)
                } else {
                    old(self).members(x)
                },
            final(self).super_admin_of() == old(self).super_admin_of(),
    {
        self.require_super_admin(caller)?;
        self.grant_internal(role, account);
        Ok(())
    }

    /// Take `role` away from `account` (super admins only).
    pub fn revoke_role(&mut self, caller: AccountId, role: &str, account: AccountId) -> (r: Result<
        (),
        Error,
    >)
        ensures
            r == (if !old(self).is_super_admin(caller) {
                Err(Error::Unauthorized)
            } else if !old(self).members(role@).contains(account) {
                Err(Error::RoleNotGranted)
            } else {
                Ok(())
            }),
            forall|x: Seq<char>|
                #[trigger] final(self).members(x) == if r is Ok && x == role@ {
                    without_member(old(self).members(x), account)
                } else {
                    old(self).members(x)
                },
            final(self).super_admin_of() == old(self).super_admin_of(),
    {
        self.require_super_admin(caller)?;
        proof {
            use_type_invariant(&*self);
        }
        let ghost t = self.table();
        let i = match self.find(role) {
            Some(i) => i,
            None => {
                return Err(Error::RoleNotGranted);
            },
        };
        proof {
            lemma_found(t, i as int, role@);
        }
        if !Self::contains(&self.roles[i].1, account) {
            return Err(Error::RoleNotGranted);
        }
        let mut next: Vec<AccountId> = Vec::new();
        let mut k: usize = 0;
        let ghost old_members = self.roles@[i as int].1@;
        assert(old_members.take(0) =~= Seq::<AccountId>::empty());
        while k < self.roles[i].1.len()
            invariant
                i < self.roles@.len(),
                old_members == self.roles@[i as int].1@,
                k <= old_members.len(),
                next@ == without_member(old_members.take(k as int), account),
            decreases old_members.len() - k,
        {
            proof {
                reveal_with_fuel(Seq::<_>::filter, 1);
                assert(old_members.take(k + 1).drop_last() =~= old_members.take(k as int));
                assert(old_members.take(k + 1).last() == old_members[k as int]);
            }
            let m = self.roles[i].1[k];
            if m != account {
                next.push(m);
            }
            k = k + 1;
        }
        assert(old_members.take(k as int) =~= old_members);
        let ghost nm = next@;
        let mut roles: Vec<(String, Vec<AccountId>)> = Vec::new();
        std::mem::swap(&mut roles, &mut self.roles);
        let key = String::from_str(role);
        roles.set(i, (key, next));
        proof {
            let nt = roles@.map_values(|e: (String, Vec<AccountId>)| entry_view(e));
            assert(nt =~= t.update(i as int, (role@, nm)));
            assert forall|a: int, b: int| 0 <= a < b < nt.len() implies #[trigger] nt[a].0
                != #[trigger] nt[b].0 by {
                assert(t[a].0 != t[b].0);
            }
        }
        self.roles = roles;
        proof {
            let nt = self.table();
            assert forall|r: Seq<char>| #[trigger] self.members(r) == if r == role@ {
                without_member(members_in(t, r), account)
            } else {
                members_in(t, r)
            } by {
                if r == role@ {
                    lemma_found(nt, i as int, r);
                } else if exists|j: int| 0 <= j < t.len() && #[trigger] t[j].0 == r {
                    let j = choose|j: int| 0 <= j < t.len() && #[trigger] t[j].0 == r;
                    assert(nt[j].0 == r);
                    lemma_found(nt, j, r);
                } else {
                    assert forall|j: int| 0 <= j < nt.len() implies #[trigger] nt[j].0 != r by {
                        if j != i {
                            assert(nt[j] == t[j]);
                        }
                    }
                }
            }
        }
        Ok(())
    }

    /// Fails unless `account` (whose authorization the host checks) holds
    /// `role`.
    pub fn require_role(&self, role: &str, account: AccountId) -> (r: Result<(), Error>)
        ensures
            r == (if self.members(role@).contains(account) {
                Ok(())
            } else {
                Err(Error::Unauthorized)
            }),
    {
        if !self.has_role(role, account) {
            return Err(Error::Unauthorized);
        }
        Ok(())
    }
}

} // verus!
