use amm_invariants::maths::decode_split;
use amm_invariants::maths::scale_factor;
use amm_invariants::maths::u256d;
use amm_invariants::maths::FixedPointFormat;
use amm_invariants::vyper::unsafe_add;
use amm_invariants::vyper::unsafe_div;
use amm_invariants::vyper::unsafe_mul;
use amm_invariants::vyper::unsafe_sub;
use amm_invariants::wide::MathError;
use amm_invariants::wide::Wide256;

#[test]
fn wide256_construction_and_order() {
    let a = Wide256::from_u128(5);
    let b = Wide256::from_parts(1, 5); // 2^128 + 5
    assert!(a.lt(b));
    assert!(!b.lt(a));
    assert!(a.le(a));
    assert!(Wide256::zero().is_zero());
    assert!(!a.is_zero());
    assert_eq!(Wide256::from_parts(0, 5), a);
}

#[test]
fn unsafe_div_by_zero_is_zero() {
    let a = Wide256::from_u128(12345);
    assert_eq!(unsafe_div(a, Wide256::zero()), Wide256::zero());
    assert_eq!(
        unsafe_div(Wide256::from_u128(7), Wide256::from_u128(2)),
        Wide256::from_u128(3)
    );
}

#[test]
fn unsafe_sub_wraps() {
    let max_256 = Wide256::from_parts(u128::MAX, u128::MAX);
    assert_eq!(unsafe_sub(Wide256::zero(), Wide256::from_u128(1)), max_256);
    assert_eq!(
        unsafe_sub(Wide256::from_u128(10), Wide256::from_u128(3)),
        Wide256::from_u128(7)
    );
}

#[test]
fn unsafe_add_wraps() {
    let max_256 = Wide256::from_parts(u128::MAX, u128::MAX);
    assert_eq!(unsafe_add(max_256, Wide256::from_u128(1)), Wide256::zero());
    assert_eq!(
        unsafe_add(Wide256::from_u128(10), Wide256::from_u128(3)),
        Wide256::from_u128(13)
    );
}

#[test]
fn unsafe_mul_wraps() {
    let two_128 = Wide256::from_parts(1, 0);
    assert_eq!(unsafe_mul(two_128, two_128), Wide256::zero());
    let two_128_plus_1 = Wide256::from_parts(1, 1);
    // (2^128 + 1)^2 = 2^256 + 2^129 + 1, truncating to 2^129 + 1
    assert_eq!(unsafe_mul(two_128_plus_1, two_128_plus_1), Wide256::from_parts(2, 1));
}

#[test]
fn scale_factor_of_common_formats() {
    let dec18 = FixedPointFormat { radix: 10, places: 18 };
    assert_eq!(
        scale_factor(dec18),
        Some(Wide256::from_u128(1_000_000_000_000_000_000))
    );
    let x128 = FixedPointFormat { radix: 2, places: 128 };
    assert_eq!(scale_factor(x128), Some(Wide256::from_parts(1, 0)));
    let x96 = FixedPointFormat { radix: 2, places: 96 };
    assert_eq!(
        scale_factor(x96),
        Some(Wide256::from_u128(79_228_162_514_264_337_593_543_950_336))
    );
    let unit = FixedPointFormat { radix: 10, places: 0 };
    assert_eq!(scale_factor(unit), Some(Wide256::from_u128(1)));
}

#[test]
fn scale_factor_overflow_is_none() {
    let too_wide = FixedPointFormat { radix: 2, places: 256 };
    assert_eq!(scale_factor(too_wide), None);
    let far_too_wide = FixedPointFormat { radix: 10, places: 4_000_000_000 };
    assert_eq!(scale_factor(far_too_wide), None);
}

#[test]
fn decode_split_is_exact() {
    let value = Wide256::from_u128(123_456_789_012_345_678_901_234_567);
    let factor = Wide256::from_u128(1_000_000_000_000_000_000);
    let (int_part, frac_part) = decode_split(value, factor);
    assert_eq!(int_part, Wide256::from_u128(123_456_789));
    assert_eq!(frac_part, Wide256::from_u128(12_345_678_901_234_567));
}

#[test]
fn round_trip_at_format_resolution() {
    // A display value representable exactly at the 18-decimal resolution
    // encodes, splits, and decodes back to itself.
    let factor_f = 1.0e18_f64;
    let factor = Wide256::from_u128(1_000_000_000_000_000_000);
    let values = [0.0_f64, 1.5, 0.25, 2.0, 123.5];
    for &v in values.iter() {
        let encoded = Wide256::from_u128((v * factor_f) as u128);
        let (int_part, frac_part) = decode_split(encoded, factor);
        let int_f = int_part.l0 as f64; // small in these cases
        let frac_f = frac_part.l0 as f64
            + frac_part.l1 as f64 * 18_446_744_073_709_551_616.0_f64;
        let decoded = int_f + frac_f / factor_f;
        assert_eq!(decoded, v);
    }
}

#[test]
fn binary_preset_scale_factors() {
    let x128 = amm_invariants::maths::format_x128();
    assert_eq!(x128.radix, 2);
    assert_eq!(x128.places, 128);
    assert_eq!(scale_factor(x128), Some(Wide256::from_parts(1, 0)));
    let x96 = amm_invariants::maths::format_x96();
    assert_eq!(
        scale_factor(x96),
        Some(Wide256::from_u128(79_228_162_514_264_337_593_543_950_336))
    );
}

#[test]
fn trapping_operations() {
    let max_256 = Wide256::from_parts(u128::MAX, u128::MAX);
    let one = Wide256::from_u128(1);
    assert_eq!(one.trapping_add(max_256), Err(MathError::Overflow));
    assert_eq!(
        Wide256::from_u128(10).trapping_add(Wide256::from_u128(3)),
        Ok(Wide256::from_u128(13))
    );
    assert_eq!(
        Wide256::from_u128(3).trapping_sub(Wide256::from_u128(10)),
        Err(MathError::Overflow)
    );
    assert_eq!(
        Wide256::from_u128(10).trapping_sub(Wide256::from_u128(3)),
        Ok(Wide256::from_u128(7))
    );
    let two_128 = Wide256::from_parts(1, 0);
    assert_eq!(two_128.trapping_mul(two_128), Err(MathError::Overflow));
    assert_eq!(
        Wide256::from_u128(10).trapping_mul(Wide256::from_u128(3)),
        Ok(Wide256::from_u128(30))
    );
}

#[test]
fn u256d_parses_decimal_strings() {
    assert_eq!(u256d("0"), Some(Wide256::zero()));
    assert_eq!(
        u256d("1000000000000000000"),
        Some(Wide256::from_u128(1_000_000_000_000_000_000))
    );
    assert_eq!(
        u256d("26328072917427972477888272069236239697031062744045588567990936851"),
        Some(Wide256::from_parts(
            77_371_252_456_184_609_121_510_485,
            237_620_308_140_500_495_824_642_148_082_389_820_691
        ))
    );
    assert_eq!(
        u256d("115792089237316195423570985008687907853269984665640564039457584007913129639935"),
        Some(Wide256::from_parts(u128::MAX, u128::MAX))
    );
    // one above the 256-bit ceiling
    assert_eq!(
        u256d("115792089237316195423570985008687907853269984665640564039457584007913129639936"),
        None
    );
    assert_eq!(u256d("12a4"), None);
    assert_eq!(u256d("-5"), None);
}
