//! Wide unsigned integers: a 256-bit and a 512-bit type with exact-width
//! arithmetic, each modeled in specifications by its value as a `nat`.
//!
//! Executable arithmetic is performed by the `primitive-types` crate through
//! trusted wrappers; everything built on top of the wrappers is verified
//! against the mathematical value of the limbs.

use vstd::prelude::*;

verus! {

/// The failures the numeric engine can surface.
#[derive(Clone, Copy, Debug, PartialEq, Eq, Structural)]
pub enum MathError {
    /// An arithmetic result exceeds (or falls below) the fixed width.
    Overflow,
    /// An explicit divisor is zero where wrapping-to-zero is not the policy.
    DivideByZero,
    /// A double-width intermediate result does not narrow back losslessly.
    Truncation,
    /// An iterative solver exceeded its round cap without meeting tolerance.
    NonConvergence,
}

pub open spec fn p64() -> nat {
    0x1_0000_0000_0000_0000nat
}

pub open spec fn p128() -> nat {
    0x1_0000_0000_0000_0000_0000_0000_0000_0000nat
}

pub open spec fn p192() -> nat {
    0x1_0000_0000_0000_0000_0000_0000_0000_0000_0000_0000_0000_0000nat
}

pub open spec fn p256() -> nat {
    0x1_0000_0000_0000_0000_0000_0000_0000_0000_0000_0000_0000_0000_0000_0000_0000_0000nat
}

pub open spec fn p320() -> nat {
    0x1_0000_0000_0000_0000_0000_0000_0000_0000_0000_0000_0000_0000_0000_0000_0000_0000_0000_0000_0000_0000nat
}

pub open spec fn p384() -> nat {
    0x1_0000_0000_0000_0000_0000_0000_0000_0000_0000_0000_0000_0000_0000_0000_0000_0000_0000_0000_0000_0000_0000_0000_0000_0000nat
}

pub open spec fn p448() -> nat {
    0x1_0000_0000_0000_0000_0000_0000_0000_0000_0000_0000_0000_0000_0000_0000_0000_0000_0000_0000_0000_0000_0000_0000_0000_0000_0000_0000_0000_0000nat
}

pub open spec fn p512() -> nat {
    0x1_0000_0000_0000_0000_0000_0000_0000_0000_0000_0000_0000_0000_0000_0000_0000_0000_0000_0000_0000_0000_0000_0000_0000_0000_0000_0000_0000_0000_0000_0000_0000_0000nat
}

/// A 256-bit unsigned integer: four 64-bit limbs, least significant first.
#[derive(Clone, Copy, Debug, PartialEq, Eq, Structural)]
pub struct Wide256 {
    pub l0: u64,
    pub l1: u64,
    pub l2: u64,
    pub l3: u64,
}

/// A 512-bit unsigned integer: eight 64-bit limbs, least significant first.
#[derive(Clone, Copy, Debug, PartialEq, Eq, Structural)]
pub struct Wide512 {
    pub l0: u64,
    pub l1: u64,
    pub l2: u64,
    pub l3: u64,
    pub l4: u64,
    pub l5: u64,
    pub l6: u64,
    pub l7: u64,
}

impl Wide256 {
    /// The mathematical value of the limbs.
    pub open spec fn as_nat(self) -> nat {
        (self.l0 + self.l1 * p64() + self.l2 * p128() + self.l3 * p192()) as nat
    }

    pub fn zero() -> (r: Wide256)
        ensures
            r.as_nat() == 0,
    {
        Wide256 { l0: 0, l1: 0, l2: 0, l3: 0 }
    }

    pub fn from_u128(x: u128) -> (r: Wide256)
        ensures
            r.as_nat() == x,
    {
        let lo: u64 = (x % 0x1_0000_0000_0000_0000u128) as u64;
        let hi: u64 = (x / 0x1_0000_0000_0000_0000u128) as u64;
        Wide256 { l0: lo, l1: hi, l2: 0, l3: 0 }
    }

    /// Builds `hi * 2^128 + lo`.
    pub fn from_parts(hi: u128, lo: u128) -> (r: Wide256)
        ensures
            r.as_nat() == hi * p128() + lo,
    {
        let lo0: u64 = (lo % 0x1_0000_0000_0000_0000u128) as u64;
        let lo1: u64 = (lo / 0x1_0000_0000_0000_0000u128) as u64;
        let hi0: u64 = (hi % 0x1_0000_0000_0000_0000u128) as u64;
        let hi1: u64 = (hi / 0x1_0000_0000_0000_0000u128) as u64;
        let r = Wide256 { l0: lo0, l1: lo1, l2: hi0, l3: hi1 };
        proof {
            assert(hi == hi0 + hi1 * p64());
            assert(r.as_nat() == lo0 + lo1 * p64() + (hi0 + hi1 * p64()) * p128());
        }
        r
    }

    pub fn is_zero(self) -> (r: bool)
        ensures
            r == (self.as_nat() == 0),
    {
        self.l0 == 0 && self.l1 == 0 && self.l2 == 0 && self.l3 == 0
    }

    /// Strict order on the mathematical values, decided limb by limb.
    pub fn lt(self, o: Wide256) -> (r: bool)
        ensures
            r == (self.as_nat() < o.as_nat()),
    {
        proof {
            assert(self.l0 + self.l1 * p64() + self.l2 * p128() < p192());
            assert(o.l0 + o.l1 * p64() + o.l2 * p128() < p192());
            assert(self.l0 + self.l1 * p64() < p128());
            assert(o.l0 + o.l1 * p64() < p128());
        }
        if self.l3 != o.l3 {
            self.l3 < o.l3
        } else if self.l2 != o.l2 {
            self.l2 < o.l2
        } else if self.l1 != o.l1 {
            self.l1 < o.l1
        } else {
            self.l0 < o.l0
        }
    }

    /// Non-strict order on the mathematical values.
    pub fn le(self, o: Wide256) -> (r: bool)
        ensures
            r == (self.as_nat() <= o.as_nat()),
    {
        !o.lt(self)
    }

    /// Trapping addition: the exact sum, or `Overflow` when the true result
    /// exceeds 256 bits.
    pub fn trapping_add(self, o: Wide256) -> (r: Result<Wide256, MathError>)
        ensures
            res_as_nat(r) == if self.as_nat() + o.as_nat() < p256() {
                Ok::<nat, MathError>((self.as_nat() + o.as_nat()) as nat)
            } else {
                Err(MathError::Overflow)
            },
    {
        match self.checked_add(o) {
            Some(v) => Ok(v),
            None => Err(MathError::Overflow),
        }
    }

    /// Trapping subtraction: the exact difference, or `Overflow` when the
    /// true result falls below zero.
    pub fn trapping_sub(self, o: Wide256) -> (r: Result<Wide256, MathError>)
        ensures
            res_as_nat(r) == if o.as_nat() <= self.as_nat() {
                Ok::<nat, MathError>((self.as_nat() - o.as_nat()) as nat)
            } else {
                Err(MathError::Overflow)
            },
    {
        match self.checked_sub(o) {
            Some(v) => Ok(v),
            None => Err(MathError::Overflow),
        }
    }

    /// Trapping multiplication: the exact product, or `Overflow` when the
    /// true result exceeds 256 bits.
    pub fn trapping_mul(self, o: Wide256) -> (r: Result<Wide256, MathError>)
        ensures
            res_as_nat(r) == if self.as_nat() * o.as_nat() < p256() {
                Ok::<nat, MathError>((self.as_nat() * o.as_nat()) as nat)
            } else {
                Err(MathError::Overflow)
            },
    {
        match self.checked_mul(o) {
            Some(v) => Ok(v),
            None => Err(MathError::Overflow),
        }
    }

    /// Relies on primitive_types::U256::checked_add: `None` exactly when the
    /// sum overflows 256 bits, otherwise the exact sum.
    #[verifier::external_body]
    pub(crate) fn checked_add(self, o: Wide256) -> (r: Option<Wide256>)
        ensures
            r is Some <==> self.as_nat() + o.as_nat() < p256(),
            r matches Some(v) ==> v.as_nat() == self.as_nat() + o.as_nat(),
    {
        let a = primitive_types::U256([self.l0, self.l1, self.l2, self.l3]);
        let b = primitive_types::U256([o.l0, o.l1, o.l2, o.l3]);
        match a.checked_add(b) {
            None => None,
            Some(c) => Some(Wide256 { l0: c.0[0], l1: c.0[1], l2: c.0[2], l3: c.0[3] }),
        }
    }

    /// Relies on primitive_types::U256::checked_sub: `None` exactly when the
    /// subtrahend exceeds the minuend, otherwise the exact difference.
    #[verifier::external_body]
    pub(crate) fn checked_sub(self, o: Wide256) -> (r: Option<Wide256>)
        ensures
            r is Some <==> o.as_nat() <= self.as_nat(),
            r matches Some(v) ==> v.as_nat() == self.as_nat() - o.as_nat(),
    {
        let a = primitive_types::U256([self.l0, self.l1, self.l2, self.l3]);
        let b = primitive_types::U256([o.l0, o.l1, o.l2, o.l3]);
        match a.checked_sub(b) {
            None => None,
            Some(c) => Some(Wide256 { l0: c.0[0], l1: c.0[1], l2: c.0[2], l3: c.0[3] }),
        }
    }

    /// Relies on primitive_types::U256::checked_mul: `None` exactly when the
    /// product overflows 256 bits, otherwise the exact product.
    #[verifier::external_body]
    pub(crate) fn checked_mul(self, o: Wide256) -> (r: Option<Wide256>)
        ensures
            r is Some <==> self.as_nat() * o.as_nat() < p256(),
            r matches Some(v) ==> v.as_nat() == self.as_nat() * o.as_nat(),
    {
        let a = primitive_types::U256([self.l0, self.l1, self.l2, self.l3]);
        let b = primitive_types::U256([o.l0, o.l1, o.l2, o.l3]);
        match a.checked_mul(b) {
            None => None,
            Some(c) => Some(Wide256 { l0: c.0[0], l1: c.0[1], l2: c.0[2], l3: c.0[3] }),
        }
    }

    /// Relies on primitive_types::U256::checked_div: `None` exactly when the
    /// divisor is zero, otherwise the floored quotient.
    #[verifier::external_body]
    pub(crate) fn checked_div(self, o: Wide256) -> (r: Option<Wide256>)
        ensures
            r is Some <==> o.as_nat() != 0,
            r matches Some(v) ==> v.as_nat() == self.as_nat() / o.as_nat(),
    {
        let a = primitive_types::U256([self.l0, self.l1, self.l2, self.l3]);
        let b = primitive_types::U256([o.l0, o.l1, o.l2, o.l3]);
        match a.checked_div(b) {
            None => None,
            Some(c) => Some(Wide256 { l0: c.0[0], l1: c.0[1], l2: c.0[2], l3: c.0[3] }),
        }
    }

    /// Relies on primitive_types::U256::overflowing_add: the sum modulo 2^256.
    #[verifier::external_body]
    pub(crate) fn wrapping_add(self, o: Wide256) -> (r: Wide256)
        ensures
            r.as_nat() == (self.as_nat() + o.as_nat()) % p256(),
    {
        let a = primitive_types::U256([self.l0, self.l1, self.l2, self.l3]);
        let b = primitive_types::U256([o.l0, o.l1, o.l2, o.l3]);
        let c = a.overflowing_add(b).0;
        Wide256 { l0: c.0[0], l1: c.0[1], l2: c.0[2], l3: c.0[3] }
    }

    /// Relies on primitive_types::U256::overflowing_sub: the two's-complement
    /// difference modulo 2^256.
    #[verifier::external_body]
    pub(crate) fn wrapping_sub(self, o: Wide256) -> (r: Wide256)
        ensures
            r.as_nat() == wrap_sub_nat(self.as_nat(), o.as_nat()),
    {
        let a = primitive_types::U256([self.l0, self.l1, self.l2, self.l3]);
        let b = primitive_types::U256([o.l0, o.l1, o.l2, o.l3]);
        let c = a.overflowing_sub(b).0;
        Wide256 { l0: c.0[0], l1: c.0[1], l2: c.0[2], l3: c.0[3] }
    }

    /// Relies on primitive_types::U256::overflowing_mul: the product modulo
    /// 2^256.
    #[verifier::external_body]
    pub(crate) fn wrapping_mul(self, o: Wide256) -> (r: Wide256)
        ensures
            r.as_nat() == (self.as_nat() * o.as_nat()) % p256(),
    {
        let a = primitive_types::U256([self.l0, self.l1, self.l2, self.l3]);
        let b = primitive_types::U256([o.l0, o.l1, o.l2, o.l3]);
        let c = a.overflowing_mul(b).0;
        Wide256 { l0: c.0[0], l1: c.0[1], l2: c.0[2], l3: c.0[3] }
    }

    /// Relies on primitive_types::U256::full_mul: the exact 512-bit product.
    #[verifier::external_body]
    pub(crate) fn full_mul(self, o: Wide256) -> (r: Wide512)
        ensures
            r.as_nat() == self.as_nat() * o.as_nat(),
    {
        let a = primitive_types::U256([self.l0, self.l1, self.l2, self.l3]);
        let b = primitive_types::U256([o.l0, o.l1, o.l2, o.l3]);
        let c = a.full_mul(b);
        let w = c.0;
        Wide512 { l0: w[0], l1: w[1], l2: w[2], l3: w[3], l4: w[4], l5: w[5], l6: w[6], l7: w[7] }
    }
}

/// A 256-bit value is determined by its mathematical value: the base-2^64
/// limb representation is unique.
pub proof fn lemma_as_nat_injective(a: Wide256, b: Wide256)
    requires
        a.as_nat() == b.as_nat(),
    ensures
        a == b,
{
    let ra: int = a.l1 + a.l2 * p64() + a.l3 * p128();
    let rb: int = b.l1 + b.l2 * p64() + b.l3 * p128();
    assert(a.as_nat() == ra * p64() + a.l0);
    assert(b.as_nat() == rb * p64() + b.l0);
    vstd::arithmetic::div_mod::lemma_fundamental_div_mod_converse_mod(
        a.as_nat() as int,
        p64() as int,
        ra,
        a.l0 as int,
    );
    vstd::arithmetic::div_mod::lemma_fundamental_div_mod_converse_div(
        a.as_nat() as int,
        p64() as int,
        ra,
        a.l0 as int,
    );
    vstd::arithmetic::div_mod::lemma_fundamental_div_mod_converse_mod(
        b.as_nat() as int,
        p64() as int,
        rb,
        b.l0 as int,
    );
    vstd::arithmetic::div_mod::lemma_fundamental_div_mod_converse_div(
        b.as_nat() as int,
        p64() as int,
        rb,
        b.l0 as int,
    );
    let sa: int = a.l2 + a.l3 * p64();
    let sb: int = b.l2 + b.l3 * p64();
    assert(ra == sa * p64() + a.l1);
    assert(rb == sb * p64() + b.l1);
    vstd::arithmetic::div_mod::lemma_fundamental_div_mod_converse_mod(ra, p64() as int, sa, a.l1 as int);
    vstd::arithmetic::div_mod::lemma_fundamental_div_mod_converse_div(ra, p64() as int, sa, a.l1 as int);
    vstd::arithmetic::div_mod::lemma_fundamental_div_mod_converse_mod(rb, p64() as int, sb, b.l1 as int);
    vstd::arithmetic::div_mod::lemma_fundamental_div_mod_converse_div(rb, p64() as int, sb, b.l1 as int);
    assert(sa == a.l3 * p64() + a.l2);
    assert(sb == b.l3 * p64() + b.l2);
    vstd::arithmetic::div_mod::lemma_fundamental_div_mod_converse_mod(sa, p64() as int, a.l3 as int, a.l2 as int);
    vstd::arithmetic::div_mod::lemma_fundamental_div_mod_converse_div(sa, p64() as int, a.l3 as int, a.l2 as int);
    vstd::arithmetic::div_mod::lemma_fundamental_div_mod_converse_mod(sb, p64() as int, b.l3 as int, b.l2 as int);
    vstd::arithmetic::div_mod::lemma_fundamental_div_mod_converse_div(sb, p64() as int, b.l3 as int, b.l2 as int);
}

/// The mathematical value of a fallible 256-bit result.
pub open spec fn res_as_nat(r: Result<Wide256, MathError>) -> Result<nat, MathError> {
    match r {
        Ok(v) => Ok(v.as_nat()),
        Err(e) => Err(e),
    }
}

/// Subtraction that wraps modulo 2^256, for operands below 2^256.
pub open spec fn wrap_sub_nat(a: nat, b: nat) -> nat {
    if b <= a {
        (a - b) as nat
    } else {
        (a + p256() - b) as nat
    }
}

impl Wide512 {
    /// The mathematical value of the limbs.
    pub open spec fn as_nat(self) -> nat {
        (self.l0 + self.l1 * p64() + self.l2 * p128() + self.l3 * p192() + self.l4 * p256()
            + self.l5 * p320() + self.l6 * p384() + self.l7 * p448()) as nat
    }

    /// Widens a 256-bit value; exact.
    pub fn from_wide256(x: Wide256) -> (r: Wide512)
        ensures
            r.as_nat() == x.as_nat(),
    {
        Wide512 { l0: x.l0, l1: x.l1, l2: x.l2, l3: x.l3, l4: 0, l5: 0, l6: 0, l7: 0 }
    }

    /// Narrows back to 256 bits; `None` exactly when the value does not fit.
    pub fn to_wide256(self) -> (r: Option<Wide256>)
        ensures
            r is Some <==> self.as_nat() < p256(),
            r matches Some(v) ==> v.as_nat() == self.as_nat(),
    {
        if self.l4 == 0 && self.l5 == 0 && self.l6 == 0 && self.l7 == 0 {
            Some(Wide256 { l0: self.l0, l1: self.l1, l2: self.l2, l3: self.l3 })
        } else {
            None
        }
    }

    /// Relies on primitive_types::U512::checked_div: `None` exactly when the
    /// divisor is zero, otherwise the floored quotient.
    #[verifier::external_body]
    pub(crate) fn checked_div(self, o: Wide512) -> (r: Option<Wide512>)
        ensures
            r is Some <==> o.as_nat() != 0,
            r matches Some(v) ==> v.as_nat() == self.as_nat() / o.as_nat(),
    {
        let a = primitive_types::U512(
            [self.l0, self.l1, self.l2, self.l3, self.l4, self.l5, self.l6, self.l7],
        );
        let b = primitive_types::U512([o.l0, o.l1, o.l2, o.l3, o.l4, o.l5, o.l6, o.l7]);
        match a.checked_div(b) {
            None => None,
            Some(c) => {
                let w = c.0;
                Some(Wide512 { l0: w[0], l1: w[1], l2: w[2], l3: w[3], l4: w[4], l5: w[5], l6: w[6], l7: w[7] })
            },
        }
    }
}

} // verus!
