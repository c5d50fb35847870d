//! The Curve-style stableswap invariant solvers: a bounded 256-round
//! Newton-like iteration for the invariant `D` over a frozen 3-asset
//! reserve vector, and the companion single-asset balance solver. All
//! arithmetic traps: an intermediate overflow or a zero denominator
//! surfaces as an error, as the modeled contract would revert.

use vstd::prelude::*;

use crate::wide::p256;
use crate::wide::res_as_nat;
use crate::wide::MathError;
use crate::wide::Wide256;

verus! {

/// The first frozen virtual reserve, 10^20 (one in 20-decimal fixed point).
pub const CURVE_X1: u128 = 100_000_000_000_000_000_000;

/// The second frozen virtual reserve, 10^7.
pub const CURVE_X2: u128 = 10_000_000;

/// Amplification times coin count: `30000 * 3`.
pub const CURVE_ANN: u128 = 90_000;

/// The amplification precision base.
pub const CURVE_A_PRECISION: u128 = 100;

/// `Ann - A_PRECISION`, the frozen denominator coefficient.
pub const CURVE_ANN_LESS_PRECISION: u128 = 89_900;

/// `3^3`, the coin-count power dividing the product term.
pub const CURVE_N_POW_N: u128 = 27;

/// The saturation ceiling `2^128 - 1`: inputs at or above it pass through.
pub const CURVE_SATURATION: u128 = 340_282_366_920_938_463_463_374_607_431_768_211_455;

/// `10^17`, the sentinel returned when 256 rounds do not converge.
pub const CURVE_SENTINEL: u128 = 100_000_000_000_000_000;

/// The reserve sum `x1 + x2 + x` for the variable third reserve `x`.
pub open spec fn curve_s(x: nat) -> nat {
    (CURVE_X1 + CURVE_X2) as nat + x
}

/// Whether two successive iterates differ by at most one unit.
pub open spec fn spec_curve_close(a: nat, b: nat) -> bool {
    if a > b {
        a - b <= 1
    } else {
        b - a <= 1
    }
}

/// One round of the `D` iteration, with every trapping step checked in the
/// order the round performs it: the product term `D_P` is rebuilt across the
/// reserve vector, then `D` is updated by the stableswap fixed-point formula.
pub open spec fn spec_curve_round(d: nat, x: nat) -> Result<nat, MathError> {
    if d * d >= p256() {
        Err(MathError::Overflow)
    } else {
        let dp1 = d * d / (CURVE_X1 as nat);
        if dp1 * d >= p256() {
            Err(MathError::Overflow)
        } else {
            let dp2 = dp1 * d / (CURVE_X2 as nat);
            if dp2 * d >= p256() {
                Err(MathError::Overflow)
            } else {
                let dp = (dp2 * d / x) / (CURVE_N_POW_N as nat);
                let t1 = (CURVE_ANN as nat) * curve_s(x) / (CURVE_A_PRECISION as nat);
                if dp * 3 >= p256() {
                    Err(MathError::Overflow)
                } else if t1 + dp * 3 >= p256() {
                    Err(MathError::Overflow)
                } else if (t1 + dp * 3) * d >= p256() {
                    Err(MathError::Overflow)
                } else {
                    let num = (t1 + dp * 3) * d;
                    if (CURVE_ANN_LESS_PRECISION as nat) * d >= p256() {
                        Err(MathError::Overflow)
                    } else {
                        let den1 = (CURVE_ANN_LESS_PRECISION as nat) * d / (
                        CURVE_A_PRECISION as nat);
                        if 4 * dp >= p256() {
                            Err(MathError::Overflow)
                        } else if den1 + 4 * dp >= p256() {
                            Err(MathError::Overflow)
                        } else if den1 + 4 * dp == 0 {
                            Err(MathError::DivideByZero)
                        } else {
                            Ok(num / (den1 + 4 * dp))
                        }
                    }
                }
            }
        }
    }
}

/// The `D` iteration, counted by rounds left: stops at the first round whose
/// update moves `D` by at most one unit, propagates the first failure, and
/// yields the sentinel when the rounds run out.
pub open spec fn spec_curve_iter(d: nat, x: nat, rounds: nat) -> Result<nat, MathError>
    decreases rounds,
{
    if rounds == 0 {
        Ok(CURVE_SENTINEL as nat)
    } else {
        match spec_curve_round(d, x) {
            Err(e) => Err(e),
            Ok(d2) => if spec_curve_close(d2, d) {
                Ok(d2)
            } else {
                spec_curve_iter(d2, x, (rounds - 1) as nat)
            },
        }
    }
}

/// The invariant for a total reserve `x`: zero and saturated inputs pass
/// through unchanged, everything else runs the bounded iteration from the
/// reserve sum.
pub open spec fn spec_curve_get_d(x: nat) -> Result<nat, MathError> {
    if x == 0 || x >= CURVE_SATURATION as nat {
        Ok(x)
    } else {
        spec_curve_iter(curve_s(x), x, 256)
    }
}

/// One exec round of the `D` iteration.
fn curve_round(d: Wide256, x_n: Wide256, s: Wide256) -> (r: Result<Wide256, MathError>)
    requires
        0 < x_n.as_nat() < CURVE_SATURATION as nat,
        s.as_nat() == curve_s(x_n.as_nat()),
    ensures
        res_as_nat(r) == spec_curve_round(d.as_nat(), x_n.as_nat()),
{
    let x1 = Wide256::from_u128(CURVE_X1);
    let x2 = Wide256::from_u128(CURVE_X2);
    let prod1 = match d.checked_mul(d) {
        Some(p) => p,
        None => {
            return Err(MathError::Overflow);
        },
    };
    let dp1 = prod1.checked_div(x1).unwrap();
    let prod2 = match dp1.checked_mul(d) {
        Some(p) => p,
        None => {
            return Err(MathError::Overflow);
        },
    };
    let dp2 = prod2.checked_div(x2).unwrap();
    let prod3 = match dp2.checked_mul(d) {
        Some(p) => p,
        None => {
            return Err(MathError::Overflow);
        },
    };
    let dp = prod3.checked_div(x_n).unwrap().checked_div(
        Wide256::from_u128(CURVE_N_POW_N),
    ).unwrap();
    let t1 = Wide256::from_u128(CURVE_ANN).checked_mul(s).unwrap().checked_div(
        Wide256::from_u128(CURVE_A_PRECISION),
    ).unwrap();
    let t2 = match dp.checked_mul(Wide256::from_u128(3u128)) {
        Some(p) => p,
        None => {
            return Err(MathError::Overflow);
        },
    };
    let nb = match t1.checked_add(t2) {
        Some(p) => p,
        None => {
            return Err(MathError::Overflow);
        },
    };
    let num = match nb.checked_mul(d) {
        Some(p) => p,
        None => {
            return Err(MathError::Overflow);
        },
    };
    let d1m = match Wide256::from_u128(CURVE_ANN_LESS_PRECISION).checked_mul(d) {
        Some(p) => p,
        None => {
            return Err(MathError::Overflow);
        },
    };
    let den1 = d1m.checked_div(Wide256::from_u128(CURVE_A_PRECISION)).unwrap();
    let den2 = match Wide256::from_u128(4u128).checked_mul(dp) {
        Some(p) => p,
        None => {
            return Err(MathError::Overflow);
        },
    };
    let den = match den1.checked_add(den2) {
        Some(p) => p,
        None => {
            return Err(MathError::Overflow);
        },
    };
    if den.is_zero() {
        return Err(MathError::DivideByZero);
    }
    Ok(num.checked_div(den).unwrap())
}

/// Solves the stableswap invariant `D` for the reserve vector
/// `[10^20, 10^7, total_reserve]` by up to 256 Newton-like rounds. Zero and
/// saturated inputs return unchanged; a round whose arithmetic overflows or
/// whose denominator vanishes fails; 256 rounds without two iterates within
/// one unit of each other return the sentinel `10^17`.
pub fn curve_get_D(x_n: Wide256) -> (res: Result<Wide256, MathError>)
    ensures
        res_as_nat(res) == spec_curve_get_d(x_n.as_nat()),
{
    let saturation = Wide256::from_u128(CURVE_SATURATION);
    if x_n.is_zero() || !x_n.lt(saturation) {
        return Ok(x_n);
    }
    let s = Wide256::from_u128(CURVE_X1).checked_add(Wide256::from_u128(CURVE_X2))
        .unwrap().checked_add(x_n).unwrap();
    if s.is_zero() {
        return Ok(s);
    }
    let one = Wide256::from_u128(1u128);
    let mut d = s;
    let mut i: usize = 0;
    while i < 256
        invariant
            i <= 256,
            0 < x_n.as_nat() < CURVE_SATURATION as nat,
            s.as_nat() == curve_s(x_n.as_nat()),
            one.as_nat() == 1,
            spec_curve_iter(d.as_nat(), x_n.as_nat(), (256 - i) as nat) == spec_curve_iter(
                curve_s(x_n.as_nat()),
                x_n.as_nat(),
                256,
            ),
        decreases 256 - i,
    {
        let d2 = match curve_round(d, x_n, s) {
            Ok(v) => v,
            Err(e) => {
                return Err(e);
            },
        };
        let close = if d.lt(d2) {
            d2.checked_sub(d).unwrap().le(one)
        } else {
            d.checked_sub(d2).unwrap().le(one)
        };
        if close {
            return Ok(d2);
        }
        d = d2;
        i = i + 1;
    }
    Ok(Wide256::from_u128(CURVE_SENTINEL))
}

/// `2 * 10^18`, the frozen partial reserve sum of the balance solver.
pub const CURVE_Y_SUM: u128 = 2_000_000_000_000_000_000;

/// `Ann * 3`, the denominator of the product coefficient.
pub const CURVE_ANN_TIMES_N: u128 = 270_000;

/// The constants `c` and `b` of the balance iteration, derived from `d` with
/// every trapping step checked in order.
pub open spec fn spec_y_setup(d: nat) -> Result<(nat, nat), MathError> {
    if d * d >= p256() {
        Err(MathError::Overflow)
    } else if d * d * (CURVE_A_PRECISION as nat) >= p256() {
        Err(MathError::Overflow)
    } else {
        let c = d * d * (CURVE_A_PRECISION as nat) / (CURVE_ANN_TIMES_N as nat);
        if d * (CURVE_A_PRECISION as nat) >= p256() {
            Err(MathError::Overflow)
        } else if (CURVE_Y_SUM as nat) + d * (CURVE_A_PRECISION as nat) / (CURVE_ANN as nat)
            >= p256() {
            Err(MathError::Overflow)
        } else {
            Ok(
                (
                    c,
                    (CURVE_Y_SUM as nat) + d * (CURVE_A_PRECISION as nat) / (CURVE_ANN as nat),
                ),
            )
        }
    }
}

/// One round of the balance iteration: `y = (y*y + c) / (2*y + b - d)`, with
/// the trapping steps checked in the order the round performs them.
pub open spec fn spec_y_round(y: nat, c: nat, b: nat, d: nat) -> Result<nat, MathError> {
    if y * y >= p256() {
        Err(MathError::Overflow)
    } else if y * y + c >= p256() {
        Err(MathError::Overflow)
    } else if 2 * y >= p256() {
        Err(MathError::Overflow)
    } else if 2 * y + b >= p256() {
        Err(MathError::Overflow)
    } else if 2 * y + b < d {
        Err(MathError::Overflow)
    } else if 2 * y + b - d == 0 {
        Err(MathError::DivideByZero)
    } else {
        Ok((y * y + c) / ((2 * y + b - d) as nat))
    }
}

/// The balance iteration, counted by rounds left.
pub open spec fn spec_y_iter(y: nat, c: nat, b: nat, d: nat, rounds: nat) -> Result<
    nat,
    MathError,
>
    decreases rounds,
{
    if rounds == 0 {
        Ok(CURVE_SENTINEL as nat)
    } else {
        match spec_y_round(y, c, b, d) {
            Err(e) => Err(e),
            Ok(y2) => if spec_curve_close(y2, y) {
                Ok(y2)
            } else {
                spec_y_iter(y2, c, b, d, (rounds - 1) as nat)
            },
        }
    }
}

/// The single-asset balance for a given invariant `d`.
pub open spec fn spec_curve_get_y_d(d: nat) -> Result<nat, MathError> {
    match spec_y_setup(d) {
        Err(e) => Err(e),
        Ok((c, b)) => spec_y_iter(d, c, b, d, 256),
    }
}

/// One exec round of the balance iteration.
fn y_round(y: Wide256, c: Wide256, b: Wide256, d: Wide256) -> (r: Result<Wide256, MathError>)
    ensures
        res_as_nat(r) == spec_y_round(y.as_nat(), c.as_nat(), b.as_nat(), d.as_nat()),
{
    let sq = match y.checked_mul(y) {
        Some(p) => p,
        None => {
            return Err(MathError::Overflow);
        },
    };
    let num = match sq.checked_add(c) {
        Some(p) => p,
        None => {
            return Err(MathError::Overflow);
        },
    };
    let dbl = match Wide256::from_u128(2u128).checked_mul(y) {
        Some(p) => p,
        None => {
            return Err(MathError::Overflow);
        },
    };
    let base = match dbl.checked_add(b) {
        Some(p) => p,
        None => {
            return Err(MathError::Overflow);
        },
    };
    let den = match base.checked_sub(d) {
        Some(p) => p,
        None => {
            return Err(MathError::Overflow);
        },
    };
    if den.is_zero() {
        return Err(MathError::DivideByZero);
    }
    Ok(num.checked_div(den).unwrap())
}

/// Solves the single-asset balance `y` for a given invariant `d` over the
/// frozen reserve vector `[10^18, 10^4, 10^20]` by up to 256 rounds of
/// `y = (y*y + c) / (2*y + b - d)`; a round whose arithmetic overflows,
/// underflows or divides by zero fails, and 256 rounds without two iterates
/// within one unit of each other return the sentinel `10^17`.
pub fn curve_get_y_D(d: Wide256) -> (res: Result<Wide256, MathError>)
    ensures
        res_as_nat(res) == spec_curve_get_y_d(d.as_nat()),
{
    let hundred = Wide256::from_u128(CURVE_A_PRECISION);
    let sq = match d.checked_mul(d) {
        Some(p) => p,
        None => {
            return Err(MathError::Overflow);
        },
    };
    let scaled = match sq.checked_mul(hundred) {
        Some(p) => p,
        None => {
            return Err(MathError::Overflow);
        },
    };
    let c = scaled.checked_div(Wide256::from_u128(CURVE_ANN_TIMES_N)).unwrap();
    let dq = match d.checked_mul(hundred) {
        Some(p) => p,
        None => {
            return Err(MathError::Overflow);
        },
    };
    let b = match Wide256::from_u128(CURVE_Y_SUM).checked_add(
        dq.checked_div(Wide256::from_u128(CURVE_ANN)).unwrap(),
    ) {
        Some(p) => p,
        None => {
            return Err(MathError::Overflow);
        },
    };
    let one = Wide256::from_u128(1u128);
    let mut y = d;
    let mut i: usize = 0;
    while i < 256
        invariant
            i <= 256,
            one.as_nat() == 1,
            spec_y_setup(d.as_nat()) == Ok::<(nat, nat), MathError>(
                (c.as_nat(), b.as_nat()),
            ),
            spec_y_iter(y.as_nat(), c.as_nat(), b.as_nat(), d.as_nat(), (256 - i) as nat)
                == spec_y_iter(d.as_nat(), c.as_nat(), b.as_nat(), d.as_nat(), 256),
        decreases 256 - i,
    {
        let y2 = match y_round(y, c, b, d) {
            Ok(v) => v,
            Err(e) => {
                return Err(e);
            },
        };
        let close = if y.lt(y2) {
            y2.checked_sub(y).unwrap().le(one)
        } else {
            y.checked_sub(y2).unwrap().le(one)
        };
        if close {
            return Ok(y2);
        }
        y = y2;
        i = i + 1;
    }
    Ok(Wide256::from_u128(CURVE_SENTINEL))
}

/// A final converging round: `v` came out of one round from `dprev` and
/// moved by at most one unit.
pub open spec fn curve_final_round(dprev: nat, v: nat, x: nat) -> bool {
    spec_curve_round(dprev, x) == Ok::<nat, MathError>(v) && spec_curve_close(v, dprev)
}

proof fn lemma_curve_iter_converged(d0: nat, x: nat, rounds: nat, v: nat)
    requires
        spec_curve_iter(d0, x, rounds) == Ok::<nat, MathError>(v),
        v != CURVE_SENTINEL as nat,
    ensures
        exists|dprev: nat| curve_final_round(dprev, v, x),
    decreases rounds,
{
    if rounds > 0 {
        match spec_curve_round(d0, x) {
            Err(_) => {},
            Ok(d2) => {
                if spec_curve_close(d2, d0) {
                    assert(curve_final_round(d0, v, x));
                } else {
                    lemma_curve_iter_converged(d2, x, (rounds - 1) as nat, v);
                }
            },
        }
    }
}

/// Law: whenever `curve_get_D` returns a value other than the
/// non-convergence sentinel for an input strictly between the domain
/// shortcuts, that value was produced by a final round whose update moved
/// the iterate by at most one unit.
pub proof fn lemma_curve_get_d_converged(x: nat, v: nat)
    requires
        0 < x < CURVE_SATURATION as nat,
        spec_curve_get_d(x) == Ok::<nat, MathError>(v),
        v != CURVE_SENTINEL as nat,
    ensures
        exists|dprev: nat| curve_final_round(dprev, v, x),
{
    lemma_curve_iter_converged(curve_s(x), x, 256, v);
}

} // verus!
