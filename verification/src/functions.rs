//! The closed-form model functions: a full-precision multiply-divide that
//! widens to 512 bits, a fixed-point self-inverse evaluator, and a rewards
//! loss model.

use vstd::prelude::*;

use vstd::arithmetic::div_mod::lemma_div_by_multiple;
use vstd::arithmetic::div_mod::lemma_div_is_ordered;
use vstd::arithmetic::div_mod::lemma_div_nonincreasing;
use vstd::arithmetic::div_mod::lemma_fundamental_div_mod;
use vstd::arithmetic::div_mod::lemma_mod_division_less_than_divisor;
use vstd::arithmetic::mul::lemma_mul_is_commutative;
use crate::wide::p256;
use crate::wide::res_as_nat;
use crate::wide::MathError;
use crate::wide::Wide256;
use crate::wide::Wide512;

verus! {

/// 10^18, the fixed-point scale of the 18-decimal formats.
pub const FP_SCALE: u128 = 1_000_000_000_000_000_000;

/// 10^36, the scale squared.
pub const FP_SCALE_SQ: u128 = 1_000_000_000_000_000_000_000_000_000_000_000_000;

/// 5 * 10^35, the domain ceiling of `x_mul_inverse` in 18-decimal fixed point.
pub const X_MUL_CEILING: u128 = 500_000_000_000_000_000_000_000_000_000_000_000;

/// 2^127, one half in the Q128.128 binary fixed-point format.
pub const HALF_X128: u128 = 170_141_183_460_469_231_731_687_303_715_884_105_728;

/// 2^150, the domain ceiling of `loss_of_rewards`.
pub open spec fn p150() -> nat {
    0x4_0000_0000_0000_0000_0000_0000_0000_0000_0000_0nat
}

/// `floor(x*y/z)` computed in double width: fails on a zero divisor, and on a
/// quotient that does not narrow back into 256 bits.
pub open spec fn spec_full_mul_div(x: nat, y: nat, z: nat) -> Result<nat, MathError> {
    if z == 0 {
        Err(MathError::DivideByZero)
    } else if x * y / z >= p256() {
        Err(MathError::Truncation)
    } else {
        Ok(x * y / z)
    }
}

/// Computes `floor(x*y/z)`, widening the operands to 512 bits so that an
/// intermediate product above 2^256 does not corrupt the result.
pub fn full_mul_div(x: Wide256, y: Wide256, z: Wide256) -> (r: Result<Wide256, MathError>)
    ensures
        res_as_nat(r) == spec_full_mul_div(x.as_nat(), y.as_nat(), z.as_nat()),
{
    if z.is_zero() {
        return Err(MathError::DivideByZero);
    }
    let p = x.full_mul(y);
    let q = p.checked_div(Wide512::from_wide256(z)).unwrap();
    match q.to_wide256() {
        Some(v) => Ok(v),
        None => Err(MathError::Truncation),
    }
}

/// `(10^18 / x) * x / 10^18` in 18-decimal fixed point: zero maps to zero,
/// values above the fixed ceiling fail with `Overflow`, and everything in
/// between approximates one (10^18) up to rounding.
pub open spec fn spec_x_mul_inverse(x: nat) -> Result<nat, MathError> {
    if x > X_MUL_CEILING {
        Err(MathError::Overflow)
    } else if x == 0 {
        Ok(0)
    } else {
        Ok(x * ((FP_SCALE_SQ as nat) / x) / (FP_SCALE as nat))
    }
}

pub fn x_mul_inverse(x: Wide256) -> (r: Result<Wide256, MathError>)
    ensures
        res_as_nat(r) == spec_x_mul_inverse(x.as_nat()),
{
    let ceiling = Wide256::from_u128(X_MUL_CEILING);
    if ceiling.lt(x) {
        return Err(MathError::Overflow);
    }
    if x.is_zero() {
        return Ok(Wide256::zero());
    }
    let q = fp_div(Wide256::from_u128(FP_SCALE), x);
    proof {
        lemma_fundamental_div_mod(FP_SCALE_SQ as int, x.as_nat() as int);
        lemma_mod_division_less_than_divisor(FP_SCALE_SQ as int, x.as_nat() as int);
        assert(x.as_nat() * q.as_nat() <= (FP_SCALE_SQ as nat));
    }
    Ok(fp_mul(x, q))
}

/// `x * y / 10^18`, trapping on a 256-bit overflow of the product.
fn fp_mul(x: Wide256, y: Wide256) -> (r: Wide256)
    requires
        x.as_nat() * y.as_nat() < p256(),
    ensures
        r.as_nat() == x.as_nat() * y.as_nat() / (FP_SCALE as nat),
{
    let p = x.checked_mul(y).unwrap();
    p.checked_div(Wide256::from_u128(FP_SCALE)).unwrap()
}

/// `x * 10^18 / y`, trapping on a 256-bit overflow of the scaled numerator.
fn fp_div(x: Wide256, y: Wide256) -> (r: Wide256)
    requires
        x.as_nat() * (FP_SCALE as nat) < p256(),
        y.as_nat() != 0,
    ensures
        r.as_nat() == x.as_nat() * (FP_SCALE as nat) / y.as_nat(),
{
    let p = x.checked_mul(Wide256::from_u128(FP_SCALE)).unwrap();
    p.checked_div(y).unwrap()
}

/// The rewards lost to rounding when a growth adjustment of one half
/// (Q128.128) is spread over a liquidity of `x + 1`: exactly the remainder
/// `2^127 mod (x + 1)`. Inputs at or above 2^150 map to zero.
pub open spec fn spec_loss_of_rewards(x: nat) -> nat {
    if x < p150() {
        (HALF_X128 as int % (x + 1) as int) as nat
    } else {
        0
    }
}

pub fn loss_of_rewards(x: Wide256) -> (r: Wide256)
    ensures
        r.as_nat() == spec_loss_of_rewards(x.as_nat()),
{
    let bound = Wide256::from_parts(4_194_304u128, 0u128);
    assert(bound.as_nat() == p150());
    if x.lt(bound) {
        let growth_inside = Wide256::from_u128(HALF_X128);
        let last_liquidity = Wide256::from_u128(1u128);
        let new_liquidity = x.checked_mul(last_liquidity).unwrap().checked_add(
            Wide256::from_u128(1u128),
        ).unwrap();
        proof {
            lemma_div_nonincreasing(HALF_X128 as int, new_liquidity.as_nat() as int);
            lemma_fundamental_div_mod(HALF_X128 as int, new_liquidity.as_nat() as int);
            lemma_mod_division_less_than_divisor(HALF_X128 as int, new_liquidity.as_nat() as int);
            lemma_mul_is_commutative(
                new_liquidity.as_nat() as int,
                ((HALF_X128 as nat) / new_liquidity.as_nat()) as int,
            );
        }
        let last_growth_adjustment = match full_mul_div(growth_inside, last_liquidity,
            new_liquidity) {
            Ok(v) => v,
            Err(_) => Wide256::zero(),
        };
        assert(last_growth_adjustment.as_nat() * new_liquidity.as_nat() <= HALF_X128 as nat);
        let last_growth_inside = growth_inside.checked_sub(last_growth_adjustment).unwrap();
        let spread = growth_inside.checked_sub(last_growth_inside).unwrap().checked_mul(
            new_liquidity,
        ).unwrap();
        growth_inside.checked_mul(last_liquidity).unwrap().checked_sub(spread).unwrap()
    } else {
        Wide256::zero()
    }
}

/// The fixed-point self-inverse as a standalone model entry point.
pub fn x_mul_inverse_fun(x: Wide256) -> (r: Result<Wide256, MathError>)
    ensures
        res_as_nat(r) == spec_x_mul_inverse(x.as_nat()),
{
    x_mul_inverse(x)
}

/// Law: for every nonzero 256-bit value `a`, the full-precision
/// multiply-divide of `a * a / a` is exact and returns `a` itself.
pub proof fn lemma_full_mul_div_self(a: nat)
    requires
        0 < a < p256(),
    ensures
        spec_full_mul_div(a, a, a) == Ok::<nat, MathError>(a),
{
    lemma_div_by_multiple(a as int, a as int);
}

/// Law: for every `x` in `(0, 5*10^35]`, `x_mul_inverse` succeeds with a
/// value `v` that approximates one (10^18) up to the rounding of its two
/// fixed-point divisions: `v <= 10^18` and `10^36 < (v + 1) * 10^18 + x`.
pub proof fn lemma_x_mul_inverse_near_unit(x: nat)
    requires
        0 < x <= X_MUL_CEILING,
    ensures
        spec_x_mul_inverse(x) matches Ok(v) && v <= (FP_SCALE as nat) && (FP_SCALE_SQ as nat) < (v
            + 1) * (FP_SCALE as nat) + x,
{
    let q: nat = (FP_SCALE_SQ as nat) / x;
    let v: nat = x * q / (FP_SCALE as nat);
    lemma_fundamental_div_mod(FP_SCALE_SQ as int, x as int);
    lemma_mod_division_less_than_divisor(FP_SCALE_SQ as int, x as int);
    assert((FP_SCALE_SQ as nat) - x < x * q <= (FP_SCALE_SQ as nat));
    lemma_fundamental_div_mod((x * q) as int, FP_SCALE as int);
    lemma_mod_division_less_than_divisor((x * q) as int, FP_SCALE as int);
    assert(x * q < (v + 1) * (FP_SCALE as nat));
    lemma_div_is_ordered((x * q) as int, FP_SCALE_SQ as int, FP_SCALE as int);
    assert(v <= (FP_SCALE_SQ as nat) / (FP_SCALE as nat));
}

} // verus!
