use vstd::arithmetic::power2::{
    lemma2_to64, lemma2_to64_rest, lemma_pow2_strictly_increases, lemma_pow2_unfold, pow2,
};
use vstd::prelude::*;

verus! {

/// Token amounts are restricted to this fixed denomination set: the powers
/// of two representable in a `u64`, enabling binary decomposition of any
/// value.
pub open spec fn is_denomination(a: u64) -> bool {
    exists|i: nat| i < 64 && a == pow2(i)
}

/// The exponent of a denomination amount; meaningful when
/// `is_denomination(a)` holds.
pub open spec fn denom_exponent(a: u64) -> nat {
    choose|i: nat| i < 64 && a == pow2(i)
}

/// The value of a sequence of token amounts, as an unbounded integer.
pub open spec fn sum_of(amounts: Seq<u64>) -> int
    decreases amounts.len(),
{
    if amounts.len() == 0 {
        0
    } else {
        sum_of(amounts.drop_last()) + amounts.last()
    }
}

/// Two distinct exponents below 64 give two distinct denominations.
pub proof fn lemma_denom_exponent_unique(i: nat, j: nat)
    requires
        i < 64,
        j < 64,
        pow2(i) == pow2(j),
    ensures
        i == j,
{
    if i < j {
        lemma_pow2_strictly_increases(i, j);
    }
    if j < i {
        lemma_pow2_strictly_increases(j, i);
    }
}

/// Every denomination exponent is at most 63, so every denomination fits a
/// `u64`.
pub proof fn lemma_pow2_u64_bound(i: nat)
    requires
        i < 64,
    ensures
        pow2(i) <= 0x8000000000000000,
{
    lemma2_to64();
    lemma2_to64_rest();
    if i < 63 {
        lemma_pow2_strictly_increases(i, 63);
    }
}

/// Finds the exponent of `a` in the denomination set, or reports that `a`
/// is no denomination.
pub fn denomination_index(a: u64) -> (r: Option<usize>)
    ensures
        match r {
            Some(i) => i < 64 && a == pow2(i as nat),
            None => !is_denomination(a),
        },
{
    let mut i: usize = 0;
    let mut value: u64 = 1;
    proof {
        lemma2_to64();
    }
    loop
        invariant
            i < 64,
            value == pow2(i as nat),
            forall|j: nat| j < i ==> a != pow2(j),
        decreases 64 - i,
    {
        if a == value {
            return Some(i);
        }
        i = i + 1;
        if i == 64 {
            proof {
                assert forall|j: nat| j < 64 implies a != pow2(j) by {}
            }
            return None;
        }
        proof {
            lemma_pow2_u64_bound(i as nat);
            lemma_pow2_unfold(i as nat);
        }
        value = value * 2;
    }
}

/// The sum of a prefix extended by one element.
pub proof fn lemma_sum_push(amounts: Seq<u64>, a: u64)
    ensures
        sum_of(amounts.push(a)) == sum_of(amounts) + a,
{
    assert(amounts.push(a).drop_last() =~= amounts);
    assert(amounts.push(a).last() == a);
}

/// Every partial sum of `u64` amounts is bounded by the length times the
/// largest `u64`, so a 128-bit accumulator never overflows.
pub proof fn lemma_sum_bounds(amounts: Seq<u64>)
    ensures
        0 <= sum_of(amounts) <= amounts.len() * 0xffffffffffffffff,
    decreases amounts.len(),
{
    if amounts.len() > 0 {
        lemma_sum_bounds(amounts.drop_last());
        assert(amounts.drop_last().len() == amounts.len() - 1);
        assert((amounts.len() - 1) * 0xffffffffffffffff + 0xffffffffffffffff == amounts.len()
            * 0xffffffffffffffff) by (nonlinear_arith);
    }
}

} // verus!
