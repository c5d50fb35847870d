//! The integer core of the fixed-point codec: the scale factor
//! `radix^places` of a format, and the split of a 256-bit representation
//! into integer and fractional parts. The conversion of the two parts to a
//! floating display value is the presentation layer's concern; the split
//! itself is exact and verified here.

use vstd::prelude::*;

use vstd::arithmetic::div_mod::lemma_fundamental_div_mod;
use vstd::arithmetic::div_mod::lemma_mod_division_less_than_divisor;
use vstd::arithmetic::mul::lemma_mul_is_commutative;
use vstd::arithmetic::power::lemma_pow_increases;
use vstd::arithmetic::power::pow;
use vstd::string::StringSliceAdditionalSpecFns;
use crate::wide::p256;
use crate::wide::Wide256;

verus! {

/// The sample-count range a model suggests to its caller.
#[derive(Clone, Copy, Debug, PartialEq, Eq, Structural)]
pub struct FixedPointNumPoints {
    pub default: usize,
    pub min: usize,
    pub max: usize,
}

/// A fixed-point format: a real value `v` is represented as
/// `round(v * radix^places)` in a 256-bit unsigned integer.
#[derive(Clone, Copy, Debug, PartialEq, Eq, Structural)]
pub struct FixedPointFormat {
    /// The radix of the format, at least 2.
    pub radix: u8,
    /// The number of fractional digits.
    pub places: u32,
}

impl FixedPointFormat {
    pub open spec fn wf(self) -> bool {
        self.radix >= 2
    }

    /// The scale factor `radix^places` of the format.
    pub open spec fn spec_scale(self) -> int {
        pow(self.radix as int, self.places as nat)
    }
}

/// The Q128.128 binary fixed-point preset: 128 integer and 128 fractional
/// binary digits.
pub fn format_x128() -> (f: FixedPointFormat)
    ensures
        f == (FixedPointFormat { radix: 2u8, places: 128u32 }),
        f.wf(),
{
    FixedPointFormat { radix: 2, places: 128 }
}

/// The Q64.96 binary fixed-point preset: 96 fractional binary digits.
pub fn format_x96() -> (f: FixedPointFormat)
    ensures
        f == (FixedPointFormat { radix: 2u8, places: 96u32 }),
        f.wf(),
{
    FixedPointFormat { radix: 2, places: 96 }
}

/// Computes the scale factor `radix^places` of a format, or `None` when it
/// does not fit in 256 bits (the documented precision-loss fallback of the
/// decode path, reachable only at extreme `places`).
pub fn scale_factor(format: FixedPointFormat) -> (r: Option<Wide256>)
    requires
        format.wf(),
    ensures
        r is Some <==> format.spec_scale() < p256(),
        r matches Some(v) ==> v.as_nat() == format.spec_scale(),
{
    let radix = Wide256::from_u128(format.radix as u128);
    let mut acc = Wide256::from_u128(1u128);
    let mut i: u32 = 0;
    proof {
        reveal(pow);
    }
    while i < format.places
        invariant
            format.wf(),
            i <= format.places,
            radix.as_nat() == format.radix as nat,
            acc.as_nat() == pow(format.radix as int, i as nat),
        decreases format.places - i,
    {
        let next = match radix.checked_mul(acc) {
            Some(p) => p,
            None => {
                proof {
                    reveal(pow);
                    assert(pow(format.radix as int, (i + 1) as nat) == format.radix as int * pow(
                        format.radix as int,
                        i as nat,
                    ));
                    lemma_pow_increases(
                        format.radix as nat,
                        (i + 1) as nat,
                        format.places as nat,
                    );
                }
                return None;
            },
        };
        proof {
            reveal(pow);
            assert(pow(format.radix as int, (i + 1) as nat) == format.radix as int * pow(
                format.radix as int,
                i as nat,
            ));
        }
        acc = next;
        i = i + 1;
    }
    Some(acc)
}

/// Splits a fixed-point representation by its scale factor into the integer
/// part `value / factor` and the fractional part `value % factor`; the two
/// parts can then lose precision independently in the display conversion,
/// bounding the loss to the fractional part.
pub fn decode_split(value: Wide256, factor: Wide256) -> (r: (Wide256, Wide256))
    requires
        factor.as_nat() > 0,
    ensures
        r.0.as_nat() == value.as_nat() / factor.as_nat(),
        r.1.as_nat() == value.as_nat() % factor.as_nat(),
{
    let q = value.checked_div(factor).unwrap();
    proof {
        lemma_fundamental_div_mod(value.as_nat() as int, factor.as_nat() as int);
        lemma_mod_division_less_than_divisor(value.as_nat() as int, factor.as_nat() as int);
    }
    let m = factor.checked_mul(q).unwrap();
    let rem = value.checked_sub(m).unwrap();
    (q, rem)
}

/// A byte is an ASCII decimal digit.
pub open spec fn is_dec_digit(b: u8) -> bool {
    0x30 <= b <= 0x39
}

/// Every byte of the string is a decimal digit.
pub open spec fn is_dec_string(bytes: Seq<u8>) -> bool {
    forall|i: int| 0 <= i < bytes.len() ==> is_dec_digit(#[trigger] bytes[i])
}

/// The decimal value of a digit string, most significant digit first; a
/// byte that is no digit counts as zero.
pub open spec fn dec_value(bytes: Seq<u8>) -> nat
    decreases bytes.len(),
{
    if bytes.len() == 0 {
        0
    } else {
        10 * dec_value(bytes.drop_last()) + (if is_dec_digit(bytes.last()) {
            (bytes.last() - 0x30) as nat
        } else {
            0
        })
    }
}

/// Appending digits never shrinks the decimal value.
proof fn lemma_dec_value_prefix(bytes: Seq<u8>, k: int)
    requires
        0 <= k <= bytes.len(),
    ensures
        dec_value(bytes.take(k)) <= dec_value(bytes),
    decreases bytes.len() - k,
{
    if k < bytes.len() {
        lemma_dec_value_prefix(bytes, k + 1);
        assert(bytes.take(k + 1).drop_last() =~= bytes.take(k));
        assert(bytes.take(k + 1).last() == bytes[k]);
    } else {
        assert(bytes.take(k) =~= bytes);
    }
}

/// Parses a decimal string into a 256-bit value: `Some` exactly when every
/// character is a decimal digit and the value fits in 256 bits.
pub fn u256d(s: &str) -> (r: Option<Wide256>)
    ensures
        r is Some <==> is_dec_string(s.spec_bytes()) && dec_value(s.spec_bytes()) < p256(),
        r matches Some(v) ==> v.as_nat() == dec_value(s.spec_bytes()),
{
    let bytes = s.as_bytes();
    let ten = Wide256::from_u128(10u128);
    let mut acc = Wide256::zero();
    let mut i: usize = 0;
    while i < bytes.len()
        invariant
            i <= bytes@.len(),
            bytes@ == s.spec_bytes(),
            ten.as_nat() == 10,
            is_dec_string(bytes@.take(i as int)),
            acc.as_nat() == dec_value(bytes@.take(i as int)),
        decreases bytes@.len() - i,
    {
        let b = bytes[i];
        proof {
            assert(bytes@.take(i + 1 as int).drop_last() =~= bytes@.take(i as int));
            assert(bytes@.take(i + 1 as int).last() == bytes@[i as int]);
        }
        if b < 0x30 || b > 0x39 {
            proof {
                assert(!is_dec_digit(s.spec_bytes()[i as int]));
            }
            return None;
        }
        let scaled = match acc.checked_mul(ten) {
            Some(t) => t,
            None => {
                proof {
                    lemma_dec_value_prefix(bytes@, i + 1);
                }
                return None;
            },
        };
        let acc2 = match scaled.checked_add(Wide256::from_u128((b - 0x30) as u128)) {
            Some(t) => t,
            None => {
                proof {
                    lemma_dec_value_prefix(bytes@, i + 1);
                }
                return None;
            },
        };
        acc = acc2;
        i = i + 1;
    }
    proof {
        assert(bytes@.take(bytes@.len() as int) =~= bytes@);
        assert(acc.as_nat() < p256());
    }
    Some(acc)
}

/// Law: the split of a value by a positive scale factor is lossless — the
/// integer part times the factor plus the fractional part recombines to the
/// value exactly, and the fractional part lies strictly below the factor,
/// so a represented value decodes and re-encodes to itself at the format's
/// resolution.
pub proof fn lemma_split_recombines(v: nat, f: nat)
    requires
        f > 0,
    ensures
        (v / f) * f + v % f == v,
        v % f < f,
{
    lemma_fundamental_div_mod(v as int, f as int);
    lemma_mod_division_less_than_divisor(v as int, f as int);
    lemma_mul_is_commutative(f as int, (v / f) as int);
}

} // verus!
