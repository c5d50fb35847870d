//! Wrapping arithmetic primitives mirroring the semantics of unchecked
//! operations in on-chain virtual machines: addition, subtraction and
//! multiplication truncate silently modulo 2^256, and division by zero
//! yields zero instead of failing.

use vstd::prelude::*;

use crate::wide::p256;
use crate::wide::wrap_sub_nat;
use crate::wide::Wide256;

verus! {

/// Floored division, with the documented lossy policy that a zero divisor
/// yields zero rather than an error.
pub open spec fn spec_unsafe_div(a: nat, b: nat) -> nat {
    if b == 0 {
        0
    } else {
        a / b
    }
}

pub fn unsafe_div(a: Wide256, b: Wide256) -> (r: Wide256)
    ensures
        r.as_nat() == spec_unsafe_div(a.as_nat(), b.as_nat()),
{
    if b.is_zero() {
        b
    } else {
        match a.checked_div(b) {
            Some(q) => q,
            None => Wide256::zero(),
        }
    }
}

pub fn unsafe_sub(a: Wide256, b: Wide256) -> (r: Wide256)
    ensures
        r.as_nat() == wrap_sub_nat(a.as_nat(), b.as_nat()),
{
    a.wrapping_sub(b)
}

pub fn unsafe_add(a: Wide256, b: Wide256) -> (r: Wide256)
    ensures
        r.as_nat() == (a.as_nat() + b.as_nat()) % p256(),
{
    a.wrapping_add(b)
}

pub fn unsafe_mul(a: Wide256, b: Wide256) -> (r: Wide256)
    ensures
        r.as_nat() == (a.as_nat() * b.as_nat()) % p256(),
{
    a.wrapping_mul(b)
}

} // verus!
