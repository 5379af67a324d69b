//! Numeric functions on bare scalars, each taking and returning the bit
//! pattern of an IEEE double.

use crate::error::CalcError;
use crate::fp;
use vstd::prelude::*;

verus! {

/// The factorial accumulator after multiplying in every integer up to
/// `n`: the product of `2..=n`, each step taken modulo 2^64 as the
/// executable accumulation is.
pub open spec fn spec_factorial_acc(n: u64) -> u64
    decreases n,
{
    if n < 2 {
        1u64
    } else {
        ((spec_factorial_acc((n - 1) as u64) as nat * n as nat) % 0x1_0000_0000_0000_0000) as u64
    }
}

/// The factorial of the double `a`, as the engine defines it: `a`
/// truncated toward zero to an unsigned integer, then the accumulated
/// product of `2..=n`, converted back to a double.
pub open spec fn spec_factorial_bits(a: u64) -> u64 {
    fp::of_u64(spec_factorial_acc(fp::to_u64_of(a)))
}

/// The square root of a scalar; negative operands fail with
/// `NegativeSqrt`.
pub fn sqrt(n: u64) -> (r: Result<u64, CalcError>)
    ensures
        fp::lt_of(n, fp::ZERO_BITS) ==> r == Err::<u64, CalcError>(CalcError::NegativeSqrt),
        !fp::lt_of(n, fp::ZERO_BITS) ==> r == Ok::<u64, CalcError>(fp::sqrt_of(n)),
{
    if fp::fp_lt(n, fp::ZERO_BITS) {
        return Err(CalcError::NegativeSqrt);
    }
    Ok(fp::fp_sqrt(n))
}

/// The scalar `a` raised to the scalar power `n`.
pub fn pow(a: u64, n: u64) -> (r: u64)
    ensures
        r == fp::powf_of(a, n),
{
    fp::fp_powf(a, n)
}

/// The product of `2..=n` on a 64-bit accumulator, each multiplication
/// taken modulo 2^64.
pub(crate) fn factorial_acc(n: u64) -> (r: u64)
    ensures
        r == spec_factorial_acc(n),
{
    let mut result: u64 = 1;
    let mut i: u64 = 1;
    while i < n
        invariant
            1 <= i,
            n < 2 ==> i == 1,
            n >= 2 ==> i <= n,
            result == spec_factorial_acc(i),
        decreases n - i,
    {
        i = i + 1;
        result = result.wrapping_mul(i);
    }
    proof {
        if n < 2 {
            assert(spec_factorial_acc(1) == 1);
            assert(spec_factorial_acc(n) == 1);
        } else {
            assert(i == n);
        }
    }
    result
}

/// The factorial of a scalar; negative operands fail with
/// `NegativeFactorial`, others are truncated toward zero and the product
/// of `2..=n` is accumulated.
pub fn factorial(n: u64) -> (r: Result<u64, CalcError>)
    ensures
        fp::lt_of(n, fp::ZERO_BITS) ==> r == Err::<u64, CalcError>(CalcError::NegativeFactorial),
        !fp::lt_of(n, fp::ZERO_BITS) ==> r == Ok::<u64, CalcError>(spec_factorial_bits(n)),
{
    if fp::fp_lt(n, fp::ZERO_BITS) {
        return Err(CalcError::NegativeFactorial);
    }
    let whole = fp::fp_to_u64(n);
    Ok(fp::fp_of_u64(factorial_acc(whole)))
}

/// The sine of a scalar.
pub fn sin(n: u64) -> (r: u64)
    ensures
        r == fp::sin_of(n),
{
    fp::fp_sin(n)
}

/// The cosine of a scalar.
pub fn cos(n: u64) -> (r: u64)
    ensures
        r == fp::cos_of(n),
{
    fp::fp_cos(n)
}

/// The tangent of a scalar.
pub fn tan(n: u64) -> (r: u64)
    ensures
        r == fp::tan_of(n),
{
    fp::fp_tan(n)
}

} // verus!
