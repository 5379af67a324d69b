//! The tolerance comparator.
//!
//! `nearly_equal` is the sole authority on approximate equality in the
//! engine: every pivot test, every singularity test and every comparison
//! of computed numbers goes through it.  Raw bit equality is never used
//! in numeric decisions.

use crate::fp;
use vstd::prelude::*;

verus! {

/// What `nearly_equal` returns: exact IEEE equality short-circuits true;
/// when either operand is a zero, or both magnitudes together stay below
/// the smallest positive normal double, the absolute difference is
/// compared against EPSILON times that smallest normal; otherwise the
/// relative error |a-b| / (|a|+|b|) is compared against EPSILON = 1e-12.
pub open spec fn spec_nearly_equal(a: u64, b: u64) -> bool {
    let diff = fp::abs_of(fp::sub_of(a, b));
    let mag = fp::add_of(fp::abs_of(a), fp::abs_of(b));
    if fp::eq_of(a, b) {
        true
    } else if fp::eq_of(a, fp::ZERO_BITS) || fp::eq_of(b, fp::ZERO_BITS) || fp::lt_of(
        mag,
        fp::MIN_POSITIVE_BITS,
    ) {
        fp::lt_of(diff, fp::mul_of(fp::EPSILON_BITS, fp::MIN_POSITIVE_BITS))
    } else {
        fp::lt_of(fp::div_of(diff, mag), fp::EPSILON_BITS)
    }
}

/// Approximate equality of two doubles (given as bit patterns) under the
/// relative-error policy of the engine.
pub fn nearly_equal(a: u64, b: u64) -> (r: bool)
    ensures
        r == spec_nearly_equal(a, b),
{
    let abs_a = fp::fp_abs(a);
    let abs_b = fp::fp_abs(b);
    let diff = fp::fp_abs(fp::fp_sub(a, b));
    let mag = fp::fp_add(abs_a, abs_b);
    if fp::fp_eq(a, b) {
        true
    } else if fp::fp_eq(a, fp::ZERO_BITS) || fp::fp_eq(b, fp::ZERO_BITS) || fp::fp_lt(
        mag,
        fp::MIN_POSITIVE_BITS,
    ) {
        fp::fp_lt(diff, fp::fp_mul(fp::EPSILON_BITS, fp::MIN_POSITIVE_BITS))
    } else {
        fp::fp_lt(fp::fp_div(diff, mag), fp::EPSILON_BITS)
    }
}

} // verus!
