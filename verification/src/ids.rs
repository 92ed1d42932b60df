//! Plain-value handles for the host's opaque identifiers.
use vstd::prelude::*;

verus! {

/// An account or contract address, as a handle that the host assigns.
pub type AccountId = u64;

/// A Soroban `Symbol` whose text the contract logic never inspects.
pub type SymbolId = u64;

/// A 32-byte hash (`BytesN<32>`).
pub type Hash32 = [u8; 32];

/// Byte-wise equality of two hashes.
pub fn hash_eq(a: &Hash32, b: &Hash32) -> (r: bool)
    ensures
        r == (a@ == b@),
{
    let mut i: usize = 0;
    while i < 32
        invariant
            0 <= i <= 32,
            a@.len() == 32,
            b@.len() == 32,
            forall|j: int| 0 <= j < i ==> a@[j] == b@[j],
        decreases 32 - i,
    {
        if a[i] != b[i] {
            return false;
        }
        i = i + 1;
    }
    assert(a@ =~= b@);
    true
}

/// The key under which a pair of handles is stored in a single map.
pub open spec fn pair_key_spec(a: u64, b: u64) -> u128 {
    (a as int * 0x1_0000_0000_0000_0000 + b as int) as u128
}

/// Packs two handles into one map key.
pub fn pair_key(a: u64, b: u64) -> (k: u128)
    ensures
        k == pair_key_spec(a, b),
{
    proof {
        lemma_pair_key_bounds(a, b);
    }
    (a as u128) * 0x1_0000_0000_0000_0000u128 + (b as u128)
}

proof fn lemma_pair_key_bounds(a: u64, b: u64)
    ensures
        0 <= a as int * 0x1_0000_0000_0000_0000 + b as int <= u128::MAX,
{
    assert(a as int * 0x1_0000_0000_0000_0000 <= 0xffff_ffff_ffff_ffff * 0x1_0000_0000_0000_0000)
        by (nonlinear_arith)
        requires
            a <= 0xffff_ffff_ffff_ffffu64,
    ;
}

/// Distinct pairs of handles are stored under distinct keys.
pub proof fn lemma_pair_key_injective(a: u64, b: u64, c: u64, d: u64)
    ensures
        pair_key_spec(a, b) == pair_key_spec(c, d) <==> (a == c && b == d),
{
    lemma_pair_key_bounds(a, b);
    lemma_pair_key_bounds(c, d);
    if pair_key_spec(a, b) == pair_key_spec(c, d) {
        let x = a as int * 0x1_0000_0000_0000_0000 + b as int;
        let y = c as int * 0x1_0000_0000_0000_0000 + d as int;
        assert(x == y);
        assert(a == c && b == d) by (nonlinear_arith)
            requires
                x == a as int * 0x1_0000_0000_0000_0000 + b as int,
                y == c as int * 0x1_0000_0000_0000_0000 + d as int,
                x == y,
                0 <= b < 0x1_0000_0000_0000_0000,
                0 <= d < 0x1_0000_0000_0000_0000,
                0 <= a,
                0 <= c,
        ;
    }
}

} // verus!
