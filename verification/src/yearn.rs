//! The Yearn-style pool supply solver: a bounded 256-round fixed-point
//! iteration over one frozen pool configuration, all arithmetic wrapping
//! modulo 2^256 as in the modeled contract.

use vstd::prelude::*;

use crate::vyper::spec_unsafe_div;
use crate::vyper::unsafe_div;
use crate::vyper::unsafe_mul;
use crate::vyper::unsafe_sub;
use crate::wide::p256;
use crate::wide::res_as_nat;
use crate::wide::wrap_sub_nat;
use crate::wide::MathError;
use crate::wide::Wide256;

verus! {

/// Relative-error tolerance: 100 parts in 10^18.
pub const YEARN_MAX_POW_REL_ERR: u128 = 100;

/// 10^18, the precision base of the relative-error test.
pub const YEARN_PRECISION: u128 = 1_000_000_000_000_000_000;

/// The frozen amplification constant of the modeled pool.
pub const YEARN_AMP: u128 = 450_000_000_000_000_000_000;

/// The frozen denominator of the outer Newton step.
pub const YEARN_D: u128 = 449_000_000_000_000_000_000;

/// The frozen virtual-balance sum of the modeled pool. Together with the
/// initial iterate below this pins the one pool configuration whose
/// recorded outcomes the solver must reproduce: a supply of zero at
/// `vb_prod = 3530246247551768`, and non-convergence at
/// `vb_prod = 1100000001490116096`. Other configurations of the same pool
/// (after further liquidity additions) give neither outcome.
pub const YEARN_VB_SUM: u128 = 10_901_945_277_009_618_639_966;

/// The frozen initial supply iterate of the same configuration.
pub const YEARN_S0: u128 = 2_514_337_702_656_951_993_513;

/// `amp * vb_sum`, the constant numerator term of the outer step.
pub open spec fn yearn_l() -> nat {
    (YEARN_AMP as nat) * (YEARN_VB_SUM as nat)
}

/// One outer Newton step: `sp = (l - s*r) / d`, wrapping.
pub open spec fn spec_yearn_sp(s: nat, r: nat) -> nat {
    spec_unsafe_div(wrap_sub_nat(yearn_l(), (s * r) % p256()), YEARN_D as nat)
}

/// The eight inner refinement passes: `r = r * sp / s`, each wrapping.
pub open spec fn spec_yearn_inner(r: nat, sp: nat, s: nat, k: nat) -> nat
    decreases k,
{
    if k == 0 {
        r
    } else {
        spec_yearn_inner(spec_unsafe_div((r * sp) % p256(), s), sp, s, (k - 1) as nat)
    }
}

/// The absolute difference of the new and old iterate.
pub open spec fn spec_yearn_delta(sp: nat, s: nat) -> nat {
    if s <= sp {
        (sp - s) as nat
    } else {
        (s - sp) as nat
    }
}

/// The convergence test: the deviation of `sp` from `s`, scaled by the
/// precision base, is at or below the fixed relative-error tolerance.
pub open spec fn spec_yearn_converged(sp: nat, s: nat) -> bool {
    spec_unsafe_div((spec_yearn_delta(sp, s) * (YEARN_PRECISION as nat)) % p256(), s)
        <= YEARN_MAX_POW_REL_ERR as nat
}

/// The iteration, counted by rounds left: `None` means the round cap was
/// reached without meeting the tolerance.
pub open spec fn spec_yearn_iter(s: nat, r: nat, rounds: nat) -> Option<nat>
    decreases rounds,
{
    if rounds == 0 {
        None
    } else {
        let sp = spec_yearn_sp(s, r);
        let r2 = spec_yearn_inner(r, sp, s, 8);
        if spec_yearn_converged(sp, s) {
            Some(r2)
        } else {
            spec_yearn_iter(sp, r2, (rounds - 1) as nat)
        }
    }
}

/// The supply estimate for a virtual-balance product: the value the
/// iteration converges to within 256 rounds, or `NonConvergence`.
pub open spec fn spec_yearn_calc_supply(vb_prod: nat) -> Result<nat, MathError> {
    match spec_yearn_iter(YEARN_S0 as nat, vb_prod, 256) {
        Some(v) => Ok(v),
        None => Err(MathError::NonConvergence),
    }
}

/// Estimates the pool supply from a virtual-balance product by bounded
/// fixed-point iteration; on convergence returns the inner running value
/// `r` (not the outer iterate), matching the modeled reference. Fails with
/// `NonConvergence` after 256 rounds.
pub fn yearn_calc_supply(vb_prod: Wide256) -> (res: Result<Wide256, MathError>)
    ensures
        res_as_nat(res) == spec_yearn_calc_supply(vb_prod.as_nat()),
{
    let max_pow_rel_err = Wide256::from_u128(YEARN_MAX_POW_REL_ERR);
    let precision = Wide256::from_u128(YEARN_PRECISION);
    let amp = Wide256::from_u128(YEARN_AMP);
    let d = Wide256::from_u128(YEARN_D);
    let vb_sum = Wide256::from_u128(YEARN_VB_SUM);
    let mut s = Wide256::from_u128(YEARN_S0);
    let l = amp.checked_mul(vb_sum).unwrap();
    let mut r = vb_prod;
    let mut i: usize = 0;
    while i < 256
        invariant
            i <= 256,
            l.as_nat() == yearn_l(),
            d.as_nat() == YEARN_D as nat,
            precision.as_nat() == YEARN_PRECISION as nat,
            max_pow_rel_err.as_nat() == YEARN_MAX_POW_REL_ERR as nat,
            spec_yearn_iter(s.as_nat(), r.as_nat(), (256 - i) as nat) == spec_yearn_iter(
                YEARN_S0 as nat,
                vb_prod.as_nat(),
                256,
            ),
        decreases 256 - i,
    {
        let sp = unsafe_div(unsafe_sub(l, unsafe_mul(s, r)), d);
        assert(sp.as_nat() == spec_yearn_sp(s.as_nat(), r.as_nat()));
        let ghost r_entry: nat = r.as_nat();
        let mut j: usize = 0;
        while j < 8
            invariant
                j <= 8,
                spec_yearn_inner(r.as_nat(), sp.as_nat(), s.as_nat(), (8 - j) as nat)
                    == spec_yearn_inner(r_entry, sp.as_nat(), s.as_nat(), 8),
            decreases 8 - j,
        {
            r = unsafe_div(unsafe_mul(r, sp), s);
            j = j + 1;
        }
        assert(r.as_nat() == spec_yearn_inner(r_entry, sp.as_nat(), s.as_nat(), 8));
        let delta = if s.le(sp) {
            unsafe_sub(sp, s)
        } else {
            unsafe_sub(s, sp)
        };
        assert(delta.as_nat() == spec_yearn_delta(sp.as_nat(), s.as_nat()));
        if unsafe_div(unsafe_mul(delta, precision), s).le(max_pow_rel_err) {
            return Ok(r);
        }
        s = sp;
        i = i + 1;
    }
    Err(MathError::NonConvergence)
}

} // verus!
