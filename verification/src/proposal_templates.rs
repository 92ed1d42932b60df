//! Governance proposal templates: the admin registers a template for each
//! kind of proposal, pinned to the SHA-256 hash of its parameter schema, and
//! proposers create proposals whose parameters must match that schema.
use std::collections::HashMap;
use vstd::prelude::*;
use vstd::string::StringSliceAdditionalSpecFns;

use crate::digest::{sha256, sha256_digest, MAX_HASH_INPUT};
use crate::ids::{hash_eq, AccountId, Hash32};

verus! {

broadcast use vstd::std_specs::hash::group_hash_axioms;

#[derive(Copy, Clone, Debug, PartialEq, Eq, Structural)]
pub enum TemplateType {
    UpdateFee,
    UpdateAutoRelease,
    AddAsset,
    UpdateAdmin,
    UpdateKycRequirement,
    UpdateVelocityLimit,
    TreasuryAllocation,
}

#[derive(Copy, Clone, Debug)]
pub struct TemplateRecord {
    pub template_type: TemplateType,
    pub param_schema_hash: Hash32,
    pub registered_at: u64,
}

/// A proposal parameter value, by the type the host decoded it as.
#[derive(Copy, Clone, Debug, PartialEq, Eq, Structural)]
pub enum ParamValue {
    U32(u32),
    U64(u64),
    I128(i128),
    Bool(bool),
    Address(AccountId),
    /// Any value of a type that no template asks for.
    Other,
}

/// The type a template requires of a parameter.
#[derive(Copy, Clone, Debug, PartialEq, Eq, Structural)]
pub enum ParamKind {
    U32,
    U64,
    I128,
    Bool,
    Address,
}

#[derive(Copy, Clone, Debug, PartialEq, Eq, Structural)]
pub enum Rejection {
    AlreadyInitialized,
    NotInitialized,
    InvalidSchemaHash,
    TemplateNotFound,
    TemplateSchemaMismatch,
    InvalidParamSet,
    MissingParam,
    InvalidParamType,
    InvalidFeeBps,
    InvalidAutoReleaseDelay,
    InvalidVelocityLimit,
    InvalidTreasuryAllocation,
    ProposalOverflow,
    ProposalNotFound,
}

impl Rejection {
    /// The message with which the contract aborts.
    pub fn message(&self) -> (m: &'static str)
        ensures
            m == (match *self {
                Rejection::AlreadyInitialized => "already initialized",
                Rejection::NotInitialized => "not initialized",
                Rejection::InvalidSchemaHash => "invalid schema hash",
                Rejection::TemplateNotFound => "template not found",
                Rejection::TemplateSchemaMismatch => "template schema mismatch",
                Rejection::InvalidParamSet => "invalid param set",
                Rejection::MissingParam => "missing required param",
                Rejection::InvalidParamType => "invalid param type",
                Rejection::InvalidFeeBps => "invalid fee bps",
                Rejection::InvalidAutoReleaseDelay => "invalid auto release delay",
                Rejection::InvalidVelocityLimit => "invalid velocity limit",
                Rejection::InvalidTreasuryAllocation => "invalid treasury allocation",
                Rejection::ProposalOverflow => "proposal overflow",
                Rejection::ProposalNotFound => "proposal not found",
            }),
    {
        match self {
            Rejection::AlreadyInitialized => "already initialized",
            Rejection::NotInitialized => "not initialized",
            Rejection::InvalidSchemaHash => "invalid schema hash",
            Rejection::TemplateNotFound => "template not found",
            Rejection::TemplateSchemaMismatch => "template schema mismatch",
            Rejection::InvalidParamSet => "invalid param set",
            Rejection::MissingParam => "missing required param",
            Rejection::InvalidParamType => "invalid param type",
            Rejection::InvalidFeeBps => "invalid fee bps",
            Rejection::InvalidAutoReleaseDelay => "invalid auto release delay",
            Rejection::InvalidVelocityLimit => "invalid velocity limit",
            Rejection::InvalidTreasuryAllocation => "invalid treasury allocation",
            Rejection::ProposalOverflow => "proposal overflow",
            Rejection::ProposalNotFound => "proposal not found",
        }
    }
}

/// The value stored under `key`, if any (keys occur at most once).
pub open spec fn lookup(s: Seq<(Seq<char>, ParamValue)>, key: Seq<char>) -> Option<ParamValue> {
    if exists|i: int| 0 <= i < s.len() && #[trigger] s[i].0 == key {
        Some(s[choose|i: int| 0 <= i < s.len() && #[trigger] s[i].0 == key].1)
    } else {
        None
    }
}

/// `s` with `key` bound to `value`: its entry replaced if it has one,
/// otherwise a new entry at the end.
pub open spec fn set_entry(s: Seq<(Seq<char>, ParamValue)>, key: Seq<char>, value: ParamValue) -> Seq<
    (Seq<char>, ParamValue),
> {
    if exists|i: int| 0 <= i < s.len() && #[trigger] s[i].0 == key {
        s.update(choose|i: int| 0 <= i < s.len() && #[trigger] s[i].0 == key, (key, value))
    } else {
        s.push((key, value))
    }
}

/// No key occurs twice.
pub open spec fn keys_distinct(s: Seq<(Seq<char>, ParamValue)>) -> bool {
    forall|i: int, j: int| 0 <= i < j < s.len() ==> #[trigger] s[i].0 != #[trigger] s[j].0
}

/// The parameters of a proposal: a map from parameter name to value.
pub struct ParamSet {
    items: Vec<(String, ParamValue)>,
}

pub open spec fn entry_view(e: (String, ParamValue)) -> (Seq<char>, ParamValue) {
    (e.0@, e.1)
}

impl ParamSet {
    #[verifier::type_invariant]
    spec fn inv(&self) -> bool {
        keys_distinct(self.items@.map_values(|e: (String, ParamValue)| entry_view(e)))
    }

    /// The entries, in the order their keys were first set.
    pub closed spec fn entries(&self) -> Seq<(Seq<char>, ParamValue)> {
        self.items@.map_values(|e: (String, ParamValue)| entry_view(e))
    }

    /// An empty parameter map.
    pub fn new() -> (p: Self)
        ensures
            p.entries() == Seq::<(Seq<char>, ParamValue)>::empty(),
    {
        let p = ParamSet { items: Vec::new() };
        assert(p.items@.map_values(|e: (String, ParamValue)| entry_view(e)) =~= Seq::<
            (Seq<char>, ParamValue),
        >::empty());
        p
    }

    /// The index of the entry for `key`, if any.
    fn find(&self, key: &String) -> (r: Option<usize>)
        ensures
            match r {
                Some(i) => i < self.entries().len() && self.entries()[i as int].0 == key@,
                None => forall|i: int|
                    0 <= i < self.entries().len() ==> #[trigger] self.entries()[i].0 != key@,
            },
    {
        let mut i: usize = 0;
        while i < self.items.len()
            invariant
                i <= self.items@.len(),
                forall|j: int| 0 <= j < i ==> #[trigger] self.items@[j].0@ != key@,
            decreases self.items.len() - i,
        {
            if self.items[i].0 == *key {
                return Some(i);
            }
            i = i + 1;
        }
        None
    }

    /// Bind `key` to `value`.
    pub fn set(&mut self, key: String, value: ParamValue)
        ensures
            final(self).entries() == set_entry(old(self).entries(), key@, value),
    {
        proof {
            use_type_invariant(&*self);
        }
        let ghost s = self.entries();
        let found = self.find(&key);
        let mut items: Vec<(String, ParamValue)> = Vec::new();
        std::mem::swap(&mut items, &mut self.items);
        let ghost k = key@;
        match found {
            Some(i) => {
                items.set(i, (key, value));
                proof {
                    let c = choose|j: int| 0 <= j < s.len() && #[trigger] s[j].0 == k;
                    if c != i {
                        if c < i {
                            assert(s[c].0 != s[i as int].0);
                        } else {
                            assert(s[i as int].0 != s[c].0);
                        }
                    }
                    assert(items@.map_values(|e: (String, ParamValue)| entry_view(e)) =~= s.update(
                        i as int,
                        (k, value),
                    ));
                    assert(keys_distinct(s.update(i as int, (k, value))));
                }
            },
            None => {
                items.push((key, value));
                proof {
                    assert(items@.map_values(|e: (String, ParamValue)| entry_view(e)) =~= s.push(
                        (k, value),
                    ));
                }
            },
        }
        self.items = items;
    }

    /// How many keys are bound.
    pub fn len(&self) -> (n: usize)
        ensures
            n == self.entries().len(),
    {
        self.items.len()
    }

    /// The value bound to `key`, if any.
    pub fn get(&self, key: &str) -> (v: Option<ParamValue>)
        ensures
            v == lookup(self.entries(), key@),
    {
        proof {
            use_type_invariant(self);
        }
        let k = String::from_str(key);
        let ghost s = self.entries();
        match self.find(&k) {
            Some(i) => {
                proof {
                    let c = choose|j: int| 0 <= j < s.len() && #[trigger] s[j].0 == key@;
                    if c != i {
                        if c < i {
                            assert(s[c].0 != s[i as int].0);
                        } else {
                            assert(s[i as int].0 != s[c].0);
                        }
                    }
                }
                Some(self.items[i].1)
            },
            None => None,
        }
    }
}

pub struct ProposalRecord {
    pub id: u32,
    pub proposer: AccountId,
    pub template_type: TemplateType,
    pub params: ParamSet,
    pub created_at: u64,
}

/// The parameter schema of each template.
pub open spec fn descriptor_of(t: TemplateType) -> &'static str {
    match t {
        TemplateType::UpdateFee => "UpdateFee:fee_bps:u32",
        TemplateType::UpdateAutoRelease => "UpdateAutoRelease:auto_release_secs:u64",
        TemplateType::AddAsset => "AddAsset:asset:Address",
        TemplateType::UpdateAdmin => "UpdateAdmin:new_admin:Address",
        TemplateType::UpdateKycRequirement => "UpdateKycRequirement:kyc_required:bool",
        TemplateType::UpdateVelocityLimit => "UpdateVelocityLimit:velocity_limit:i128",
        TemplateType::TreasuryAllocation => "TreasuryAllocation:recipient:Address,amount:i128",
    }
}

/// The schema hash a template must be registered with.
pub open spec fn expected_hash_of(t: TemplateType) -> Seq<u8> {
    sha256_digest(descriptor_of(t).spec_bytes())
}

/// A UTF-8 encoding takes at most four bytes per character.
proof fn lemma_encoding_len(chars: Seq<char>)
    ensures
        vstd::utf8::encode_utf8(chars).len() <= 4 * chars.len(),
    decreases chars.len(),
{
    if chars.len() > 0 {
        lemma_encoding_len(chars.drop_first());
    }
}

/// Every schema is short enough to hash.
proof fn lemma_descriptor_fits(t: TemplateType)
    ensures
        descriptor_of(t).spec_bytes().len() <= MAX_HASH_INPUT,
{
    reveal_strlit("UpdateFee:fee_bps:u32");
    reveal_strlit("UpdateAutoRelease:auto_release_secs:u64");
    reveal_strlit("AddAsset:asset:Address");
    reveal_strlit("UpdateAdmin:new_admin:Address");
    reveal_strlit("UpdateKycRequirement:kyc_required:bool");
    reveal_strlit("UpdateVelocityLimit:velocity_limit:i128");
    reveal_strlit("TreasuryAllocation:recipient:Address,amount:i128");
    lemma_encoding_len(descriptor_of(t)@);
}

/// The name of a template type, as its schema writes it.
pub open spec fn template_name(t: TemplateType) -> &'static str {
    match t {
        TemplateType::UpdateFee => "UpdateFee",
        TemplateType::UpdateAutoRelease => "UpdateAutoRelease",
        TemplateType::AddAsset => "AddAsset",
        TemplateType::UpdateAdmin => "UpdateAdmin",
        TemplateType::UpdateKycRequirement => "UpdateKycRequirement",
        TemplateType::UpdateVelocityLimit => "UpdateVelocityLimit",
        TemplateType::TreasuryAllocation => "TreasuryAllocation",
    }
}

/// Each template's schema begins with its type's name followed by `:`, and
/// different template types have different schemas (so different expected
/// schema hashes are asked of them).
pub proof fn lemma_descriptors_distinct(t1: TemplateType, t2: TemplateType)
    ensures
        descriptor_of(t1)@.len() > template_name(t1)@.len(),
        descriptor_of(t1)@.subrange(0, template_name(t1)@.len() as int) == template_name(t1)@,
        descriptor_of(t1)@[template_name(t1)@.len() as int] == ':',
        t1 != t2 ==> descriptor_of(t1)@ != descriptor_of(t2)@,
{
    reveal_strlit("UpdateFee:fee_bps:u32");
    reveal_strlit("UpdateAutoRelease:auto_release_secs:u64");
    reveal_strlit("AddAsset:asset:Address");
    reveal_strlit("UpdateAdmin:new_admin:Address");
    reveal_strlit("UpdateKycRequirement:kyc_required:bool");
    reveal_strlit("UpdateVelocityLimit:velocity_limit:i128");
    reveal_strlit("TreasuryAllocation:recipient:Address,amount:i128");
    reveal_strlit("UpdateFee");
    reveal_strlit("UpdateAutoRelease");
    reveal_strlit("AddAsset");
    reveal_strlit("UpdateAdmin");
    reveal_strlit("UpdateKycRequirement");
    reveal_strlit("UpdateVelocityLimit");
    reveal_strlit("TreasuryAllocation");
    if t1 != t2 && descriptor_of(t1)@ == descriptor_of(t2)@ {
        assert(descriptor_of(t1)@[6] == descriptor_of(t2)@[6]);
        assert(descriptor_of(t1)@[0] == descriptor_of(t2)@[0]);
        assert(descriptor_of(t1)@[7] == descriptor_of(t2)@[7]);
    }
    assert(descriptor_of(t1)@.subrange(0, template_name(t1)@.len() as int) =~= template_name(t1)@);
}

/// The key under which a template is stored.
pub open spec fn template_key(t: TemplateType) -> u32 {
    match t {
        TemplateType::UpdateFee => 0,
        TemplateType::UpdateAutoRelease => 1,
        TemplateType::AddAsset => 2,
        TemplateType::UpdateAdmin => 3,
        TemplateType::UpdateKycRequirement => 4,
        TemplateType::UpdateVelocityLimit => 5,
        TemplateType::TreasuryAllocation => 6,
    }
}

pub open spec fn has_kind(v: ParamValue, kind: ParamKind) -> bool {
    match kind {
        ParamKind::U32 => v is U32,
        ParamKind::U64 => v is U64,
        ParamKind::I128 => v is I128,
        ParamKind::Bool => v is Bool,
        ParamKind::Address => v is Address,
    }
}

/// Fetching parameter `key` as a value of `kind`.
pub open spec fn required(s: Seq<(Seq<char>, ParamValue)>, key: Seq<char>, kind: ParamKind) -> Result<
    ParamValue,
    Rejection,
> {
    match lookup(s, key) {
        None => Err(Rejection::MissingParam),
        Some(v) => if has_kind(v, kind) {
            Ok(v)
        } else {
            Err(Rejection::InvalidParamType)
        },
    }
}

/// What checking the parameters of a proposal of template `t` gives.
pub open spec fn validation(t: TemplateType, s: Seq<(Seq<char>, ParamValue)>) -> Result<
    (),
    Rejection,
> {
    let n: int = if t is TreasuryAllocation {
        2
    } else {
        1
    };
    if s.len() != n {
        Err(Rejection::InvalidParamSet)
    } else {
        match t {
            TemplateType::UpdateFee => match required(s, "fee_bps"@, ParamKind::U32) {
                Err(e) => Err(e),
                Ok(v) => if v->U32_0 > 10_000 {
                    Err(Rejection::InvalidFeeBps)
                } else {
                    Ok(())
                },
            },
            TemplateType::UpdateAutoRelease => match required(
                s,
                "auto_release_secs"@,
                ParamKind::U64,
            ) {
                Err(e) => Err(e),
                Ok(v) => if v->U64_0 == 0 {
                    Err(Rejection::InvalidAutoReleaseDelay)
                } else {
                    Ok(())
                },
            },
            TemplateType::AddAsset => match required(s, "asset"@, ParamKind::Address) {
                Err(e) => Err(e),
                Ok(_) => Ok(()),
            },
            TemplateType::UpdateAdmin => match required(s, "new_admin"@, ParamKind::Address) {
                Err(e) => Err(e),
                Ok(_) => Ok(()),
            },
            TemplateType::UpdateKycRequirement => match required(
                s,
                "kyc_required"@,
                ParamKind::Bool,
            ) {
                Err(e) => Err(e),
                Ok(_) => Ok(()),
            },
            TemplateType::UpdateVelocityLimit => match required(
                s,
                "velocity_limit"@,
                ParamKind::I128,
            ) {
                Err(e) => Err(e),
                Ok(v) => if v->I128_0 <= 0 {
                    Err(Rejection::InvalidVelocityLimit)
                } else {
                    Ok(())
                },
            },
            TemplateType::TreasuryAllocation => match required(
                s,
                "recipient"@,
                ParamKind::Address,
            ) {
                Err(e) => Err(e),
                Ok(_) => match required(s, "amount"@, ParamKind::I128) {
                    Err(e) => Err(e),
                    Ok(v) => if v->I128_0 <= 0 {
                        Err(Rejection::InvalidTreasuryAllocation)
                    } else {
                        Ok(())
                    },
                },
            },
        }
    }
}

fn template_index(t: TemplateType) -> (k: u32)
    ensures
        k == template_key(t),
{
    match t {
        TemplateType::UpdateFee => 0,
        TemplateType::UpdateAutoRelease => 1,
        TemplateType::AddAsset => 2,
        TemplateType::UpdateAdmin => 3,
        TemplateType::UpdateKycRequirement => 4,
        TemplateType::UpdateVelocityLimit => 5,
        TemplateType::TreasuryAllocation => 6,
    }
}

/// Different templates are stored under different keys.
pub proof fn lemma_template_keys_distinct(a: TemplateType, b: TemplateType)
    ensures
        template_key(a) == template_key(b) <==> a == b,
{
}

/// The proposal-templates contract's stored state.
pub struct ProposalTemplatesContract {
    pub admin: Option<AccountId>,
    pub proposal_count: u32,
    /// Keyed by `template_key`.
    pub templates: HashMap<u32, TemplateRecord>,
    pub proposals: HashMap<u32, ProposalRecord>,
}

impl ProposalTemplatesContract {
    /// The parameter schema of a template.
    pub fn schema_descriptor(template_type: &TemplateType) -> (s: &'static str)
        ensures
            s == descriptor_of(*template_type),
    {
        match template_type {
            TemplateType::UpdateFee => "UpdateFee:fee_bps:u32",
            TemplateType::UpdateAutoRelease => "UpdateAutoRelease:auto_release_secs:u64",
            TemplateType::AddAsset => "AddAsset:asset:Address",
            TemplateType::UpdateAdmin => "UpdateAdmin:new_admin:Address",
            TemplateType::UpdateKycRequirement => "UpdateKycRequirement:kyc_required:bool",
            TemplateType::UpdateVelocityLimit => "UpdateVelocityLimit:velocity_limit:i128",
            TemplateType::TreasuryAllocation => "TreasuryAllocation:recipient:Address,amount:i128",
        }
    }

    /// The SHA-256 hash of a template's parameter schema.
    pub fn expected_schema_hash(template_type: &TemplateType) -> (h: Hash32)
        ensures
            h@ == expected_hash_of(*template_type),
    {
        let schema = Self::schema_descriptor(template_type);
        proof {
            lemma_descriptor_fits(*template_type);
        }
        sha256(schema.as_bytes())
    }

    fn require_exact_len(params: &ParamSet, expected: usize) -> (r: Result<(), Rejection>)
        ensures
            r == (if params.entries().len() != expected {
                Err(Rejection::InvalidParamSet)
            } else {
                Ok(())
            }),
    {
        if params.len() != expected {
            return Err(Rejection::InvalidParamSet);
        }
        Ok(())
    }

    fn required_param(params: &ParamSet, key: &str, kind: ParamKind) -> (r: Result<ParamValue, Rejection>)
        ensures
            r == required(params.entries(), key@, kind),
    {
        match params.get(key) {
            None => Err(Rejection::MissingParam),
            Some(v) => {
                let ok = match kind {
                    ParamKind::U32 => matches!(v, ParamValue::U32(_)),
                    ParamKind::U64 => matches!(v, ParamValue::U64(_)),
                    ParamKind::I128 => matches!(v, ParamValue::I128(_)),
                    ParamKind::Bool => matches!(v, ParamValue::Bool(_)),
                    ParamKind::Address => matches!(v, ParamValue::Address(_)),
                };
                if ok {
                    Ok(v)
                } else {
                    Err(Rejection::InvalidParamType)
                }
            },
        }
    }

    /// Check the parameters of a proposal against its template's schema.
    pub fn validate_params(template_type: &TemplateType, params: &ParamSet) -> (r: Result<(), Rejection>)
        ensures
            r == validation(*template_type, params.entries()),
    {
        match template_type {
            TemplateType::UpdateFee => {
                Self::require_exact_len(params, 1)?;
                match Self::required_param(params, "fee_bps", ParamKind::U32)? {
                    ParamValue::U32(fee_bps) => if fee_bps > 10_000 {
                        return Err(Rejection::InvalidFeeBps);
                    },
                    _ => {},
                }
            },
            TemplateType::UpdateAutoRelease => {
                Self::require_exact_len(params, 1)?;
                match Self::required_param(params, "auto_release_secs", ParamKind::U64)? {
                    ParamValue::U64(delay) => if delay == 0 {
                        return Err(Rejection::InvalidAutoReleaseDelay);
                    },
                    _ => {},
                }
            },
            TemplateType::AddAsset => {
                Self::require_exact_len(params, 1)?;
                Self::required_param(params, "asset", ParamKind::Address)?;
            },
            TemplateType::UpdateAdmin => {
                Self::require_exact_len(params, 1)?;
                Self::required_param(params, "new_admin", ParamKind::Address)?;
            },
            TemplateType::UpdateKycRequirement => {
                Self::require_exact_len(params, 1)?;
                Self::required_param(params, "kyc_required", ParamKind::Bool)?;
            },
            TemplateType::UpdateVelocityLimit => {
                Self::require_exact_len(params, 1)?;
                match Self::required_param(params, "velocity_limit", ParamKind::I128)? {
                    ParamValue::I128(limit) => if limit <= 0 {
                        return Err(Rejection::InvalidVelocityLimit);
                    },
                    _ => {},
                }
            },
            TemplateType::TreasuryAllocation => {
                Self::require_exact_len(params, 2)?;
                Self::required_param(params, "recipient", ParamKind::Address)?;
                match Self::required_param(params, "amount", ParamKind::I128)? {
                    ParamValue::I128(amount) => if amount <= 0 {
                        return Err(Rejection::InvalidTreasuryAllocation);
                    },
                    _ => {},
                }
            },
        }
        Ok(())
    }

    /// The registered template of type `t`, if any.
    pub open spec fn template_of(&self, t: TemplateType) -> Option<TemplateRecord> {
        if self.templates@.contains_key(template_key(t)) {
            Some(self.templates@[template_key(t)])
        } else {
            None
        }
    }

    /// A contract that has not been initialized.
    pub fn new() -> (s: Self)
        ensures
            s.admin is None,
            s.proposal_count == 0,
            s.templates@ == Map::<u32, TemplateRecord>::empty(),
            s.proposals@ == Map::<u32, ProposalRecord>::empty(),
    {
        ProposalTemplatesContract {
            admin: None,
            proposal_count: 0,
            templates: HashMap::new(),
            proposals: HashMap::new(),
        }
    }

    pub fn initialize(&mut self, admin: AccountId) -> (r: Result<(), Rejection>)
        ensures
            r == (if old(self).admin is Some {
                Err(Rejection::AlreadyInitialized)
            } else {
                Ok(())
            }),
            r is Ok ==> final(self).admin == Some(admin) && final(self).proposal_count == 0,
            r is Err ==> final(self).admin == old(self).admin && final(self).proposal_count == old(self).proposal_count,
            final(self).templates@ == old(self).templates@,
            final(self).proposals@ == old(self).proposals@,
    {
        if self.admin.is_some() {
            return Err(Rejection::AlreadyInitialized);
        }
        self.admin = Some(admin);
        self.proposal_count = 0;
        Ok(())
    }

    /// Fails unless the contract has been initialized.
    pub fn require_initialized(&self) -> (r: Result<(), Rejection>)
        ensures
            r == (if self.admin is Some {
                Ok(())
            } else {
                Err(Rejection::NotInitialized)
            }),
    {
        if self.admin.is_none() {
            return Err(Rejection::NotInitialized);
        }
        Ok(())
    }

    /// The admin, whose authorization the host then checks.
    pub fn require_admin(&self) -> (r: Result<AccountId, Rejection>)
        ensures
            r == (match self.admin {
                Some(a) => Ok::<AccountId, Rejection>(a),
                None => Err(Rejection::NotInitialized),
            }),
    {
        match self.admin {
            Some(a) => Ok(a),
            None => Err(Rejection::NotInitialized),
        }
    }

    /// Register a template, given the hash its schema must have.
    pub fn register_template_against(
        &mut self,
        template_type: TemplateType,
        param_schema_hash: Hash32,
        expected: Hash32,
        now: u64,
    ) -> (r: Result<(), Rejection>)
        ensures
            r == (if old(self).admin is None {
                Err(Rejection::NotInitialized)
            } else if param_schema_hash@ != expected@ {
                Err(Rejection::InvalidSchemaHash)
            } else {
                Ok(())
            }),
            r is Ok ==> final(self).templates@ == old(self).templates@.insert(
                template_key(template_type),
                TemplateRecord { template_type, param_schema_hash, registered_at: now },
            ),
            r is Err ==> final(self).templates@ == old(self).templates@,
            final(self).admin == old(self).admin,
            final(self).proposal_count == old(self).proposal_count,
            final(self).proposals@ == old(self).proposals@,
    {
        self.require_admin()?;
        if !hash_eq(&param_schema_hash, &expected) {
            return Err(Rejection::InvalidSchemaHash);
        }
        let record = TemplateRecord { template_type, param_schema_hash, registered_at: now };
        self.templates.insert(template_index(template_type), record);
        Ok(())
    }

    /// Register a template; its hash must be that of the template's schema.
    pub fn register_template(&mut self, template_type: TemplateType, param_schema_hash: Hash32, now: u64) -> (r: Result<(), Rejection>)
        ensures
            r == (if old(self).admin is None {
                Err(Rejection::NotInitialized)
            } else if param_schema_hash@ != expected_hash_of(template_type) {
                Err(Rejection::InvalidSchemaHash)
            } else {
                Ok(())
            }),
            r is Ok ==> final(self).templates@ == old(self).templates@.insert(
                template_key(template_type),
                TemplateRecord { template_type, param_schema_hash, registered_at: now },
            ),
            r is Err ==> final(self).templates@ == old(self).templates@,
            final(self).admin == old(self).admin,
            final(self).proposal_count == old(self).proposal_count,
            final(self).proposals@ == old(self).proposals@,
    {
        self.require_admin()?;
        let expected = Self::expected_schema_hash(&template_type);
        self.register_template_against(template_type, param_schema_hash, expected, now)
    }

    /// The registered template of a type.
    pub fn get_template(&self, template_type: TemplateType) -> (r: Result<TemplateRecord, Rejection>)
        ensures
            r == (match self.template_of(template_type) {
                Some(t) => Ok::<TemplateRecord, Rejection>(t),
                None => Err(Rejection::TemplateNotFound),
            }),
    {
        match self.templates.get(&template_index(template_type)) {
            Some(t) => Ok(*t),
            None => Err(Rejection::TemplateNotFound),
        }
    }

    /// Create a proposal from a template, given the hash the template's
    /// schema must have.  Returns the new proposal's id.
    pub fn create_from_template_against(
        &mut self,
        proposer: AccountId,
        template_type: TemplateType,
        params: ParamSet,
        expected: Hash32,
        now: u64,
    ) -> (r: Result<u32, Rejection>)
        ensures
            r == (if old(self).admin is None {
                Err(Rejection::NotInitialized)
            } else if old(self).template_of(template_type) is None {
                Err(Rejection::TemplateNotFound)
            } else if old(self).template_of(template_type)->Some_0.param_schema_hash@ != expected@ {
                Err(Rejection::TemplateSchemaMismatch)
            } else if validation(template_type, params.entries()) is Err {
                Err(validation(template_type, params.entries())->Err_0)
            } else if old(self).proposal_count == u32::MAX {
                Err(Rejection::ProposalOverflow)
            } else {
                Ok((old(self).proposal_count + 1) as u32)
            }),
            r is Ok ==> final(self).proposal_count == r->Ok_0 && final(self).proposals@.dom()
                == old(self).proposals@.dom().insert(r->Ok_0) && (forall|id: u32|
                id != r->Ok_0 && old(self).proposals@.contains_key(id) ==> final(self).proposals@[id] == old(self).proposals@[id]) && final(self).proposals@[r->Ok_0].id
                == r->Ok_0 && final(self).proposals@[r->Ok_0].proposer == proposer && final(self).proposals@[r->Ok_0].template_type == template_type && final(self).proposals@[r->Ok_0].params.entries()
                == params.entries() && final(self).proposals@[r->Ok_0].created_at == now,
            r is Err ==> final(self).proposal_count == old(self).proposal_count && final(self).proposals@ == old(self).proposals@,
            final(self).admin == old(self).admin,
            final(self).templates@ == old(self).templates@,
    {
        self.require_initialized()?;
        let template = self.get_template(template_type)?;
        if !hash_eq(&template.param_schema_hash, &expected) {
            return Err(Rejection::TemplateSchemaMismatch);
        }
        Self::validate_params(&template_type, &params)?;
        let count = match self.proposal_count.checked_add(1) {
            Some(c) => c,
            None => {
                return Err(Rejection::ProposalOverflow);
            },
        };
        let ghost entries = params.entries();
        let record = ProposalRecord {
            id: count,
            proposer,
            template_type,
            params,
            created_at: now,
        };
        self.proposal_count = count;
        self.proposals.insert(count, record);
        Ok(count)
    }

    /// Create a proposal from a registered template.  Returns its id.
    pub fn create_from_template(
        &mut self,
        proposer: AccountId,
        template_type: TemplateType,
        params: ParamSet,
        now: u64,
    ) -> (r: Result<u32, Rejection>)
        ensures
            r == (if old(self).admin is None {
                Err(Rejection::NotInitialized)
            } else if old(self).template_of(template_type) is None {
                Err(Rejection::TemplateNotFound)
            } else if old(self).template_of(template_type)->Some_0.param_schema_hash@
                != expected_hash_of(template_type) {
                Err(Rejection::TemplateSchemaMismatch)
            } else if validation(template_type, params.entries()) is Err {
                Err(validation(template_type, params.entries())->Err_0)
            } else if old(self).proposal_count == u32::MAX {
                Err(Rejection::ProposalOverflow)
            } else {
                Ok((old(self).proposal_count + 1) as u32)
            }),
            r is Ok ==> final(self).proposal_count == r->Ok_0 && final(self).proposals@.dom()
                == old(self).proposals@.dom().insert(r->Ok_0) && (forall|id: u32|
                id != r->Ok_0 && old(self).proposals@.contains_key(id) ==> final(self).proposals@[id] == old(self).proposals@[id]) && final(self).proposals@[r->Ok_0].id
                == r->Ok_0 && final(self).proposals@[r->Ok_0].proposer == proposer && final(self).proposals@[r->Ok_0].template_type == template_type && final(self).proposals@[r->Ok_0].params.entries()
                == params.entries() && final(self).proposals@[r->Ok_0].created_at == now,
            r is Err ==> final(self).proposal_count == old(self).proposal_count && final(self).proposals@ == old(self).proposals@,
            final(self).admin == old(self).admin,
            final(self).templates@ == old(self).templates@,
    {
        self.require_initialized()?;
        let expected = Self::expected_schema_hash(&template_type);
        self.create_from_template_against(proposer, template_type, params, expected, now)
    }

    /// A stored proposal.
    pub fn get_proposal(&self, proposal_id: u32) -> (r: Result<&ProposalRecord, Rejection>)
        ensures
            r == (if self.proposals@.contains_key(proposal_id) {
                Ok::<&ProposalRecord, Rejection>(&self.proposals@[proposal_id])
            } else {
                Err(Rejection::ProposalNotFound)
            }),
    {
        match self.proposals.get(&proposal_id) {
            Some(p) => Ok(p),
            None => Err(Rejection::ProposalNotFound),
        }
    }
}

} // verus!
