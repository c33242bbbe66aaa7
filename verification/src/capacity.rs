use vstd::prelude::*;

verus! {

/// Calls `Vec::capacity`. The contract claims only what std documents for every vector: the
/// capacity is never below the length. How much the allocator actually handed out is left
/// unsaid.
#[verifier::external_body]
pub(crate) fn vec_capacity<T>(v: &Vec<T>) -> (r: usize)
    ensures
        r >= v@.len(),
{
    v.capacity()
}

/// `a * b`, or `usize::MAX` where the product does not fit.
pub(crate) fn saturating_mul(a: usize, b: usize) -> (r: usize)
    ensures
        a * b <= usize::MAX ==> r == a * b,
        a * b > usize::MAX ==> r == usize::MAX,
{
    if b != 0 && a > usize::MAX / b {
        proof {
            let q = usize::MAX as int / b as int;
            vstd::arithmetic::div_mod::lemma_fundamental_div_mod(usize::MAX as int, b as int);
            vstd::arithmetic::mul::lemma_mul_inequality(q + 1, a as int, b as int);
            assert((q + 1) * b == q * b + b) by (nonlinear_arith);
            assert(b * q == q * b) by (nonlinear_arith);
        }
        usize::MAX
    } else {
        proof {
            if b != 0 {
                vstd::arithmetic::div_mod::lemma_fundamental_div_mod(usize::MAX as int, b as int);
                vstd::arithmetic::mul::lemma_mul_inequality(a as int, (usize::MAX / b) as int, b as int);
            }
        }
        a * b
    }
}

} // verus!
