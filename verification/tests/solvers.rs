use amm_invariants::curve::curve_get_D;
use amm_invariants::curve::curve_get_y_D;
use amm_invariants::functions::full_mul_div;
use amm_invariants::functions::loss_of_rewards;
use amm_invariants::functions::x_mul_inverse;
use amm_invariants::wide::MathError;
use amm_invariants::wide::Wide256;
use amm_invariants::yearn::yearn_calc_supply;

#[test]
fn functions_test_full_math_div() {
    let max_256 = Wide256::from_parts(u128::MAX, u128::MAX);
    assert_eq!(full_mul_div(max_256, max_256, max_256), Ok(max_256));

    let x = Wide256::from_parts(2, 30); // 2^129 + 30
    let y = Wide256::from_parts(128, 456); // 2^135 + 456
    let z = Wide256::from_u128(1_125_899_906_830_279); // 2^50 - 12345
    let expected = Wide256::from_parts(
        77_371_252_456_184_609_121_510_485,
        237_620_308_140_500_495_824_642_148_082_389_820_691,
    ); // 26328072917427972477888272069236239697031062744045588567990936851
    assert_eq!(full_mul_div(x, y, z), Ok(expected));
}

#[test]
fn mul_by_inverse_test_full_math_div() {
    let max_256 = Wide256::from_parts(u128::MAX, u128::MAX);
    assert_eq!(full_mul_div(max_256, max_256, max_256), Ok(max_256));

    let x = Wide256::from_parts(2, 30);
    let y = Wide256::from_parts(128, 456);
    let z = Wide256::from_u128(1_125_899_906_830_279);
    let expected = Wide256::from_parts(
        77_371_252_456_184_609_121_510_485,
        237_620_308_140_500_495_824_642_148_082_389_820_691,
    );
    assert_eq!(full_mul_div(x, y, z), Ok(expected));
}

#[test]
fn functions_test_yearn_calc_supply() {
    assert_eq!(
        yearn_calc_supply(Wide256::from_u128(3_530_246_247_551_768)),
        Ok(Wide256::zero())
    );
    assert_eq!(
        yearn_calc_supply(Wide256::from_u128(1_100_000_001_490_116_096)),
        Err(MathError::NonConvergence)
    );
}

#[test]
fn yearn_test_yearn_calc_supply() {
    assert_eq!(
        yearn_calc_supply(Wide256::from_u128(3_530_246_247_551_768)),
        Ok(Wide256::zero())
    );
    assert_eq!(
        yearn_calc_supply(Wide256::from_u128(1_100_000_001_490_116_096)),
        Err(MathError::NonConvergence)
    );
}

#[test]
fn yearn_converges_to_nonzero_supply() {
    assert_eq!(
        yearn_calc_supply(Wide256::from_u128(2_000_000_000_000_000_000)),
        Ok(Wide256::from_u128(520_815_944_661_453_612))
    );
}

#[test]
fn full_mul_div_divide_by_zero() {
    let a = Wide256::from_u128(7);
    assert_eq!(
        full_mul_div(a, a, Wide256::zero()),
        Err(MathError::DivideByZero)
    );
}

#[test]
fn full_mul_div_truncation() {
    let max_256 = Wide256::from_parts(u128::MAX, u128::MAX);
    let one = Wide256::from_u128(1);
    assert_eq!(
        full_mul_div(max_256, max_256, one),
        Err(MathError::Truncation)
    );
}

#[test]
fn x_mul_inverse_zero_is_zero() {
    assert_eq!(x_mul_inverse(Wide256::zero()), Ok(Wide256::zero()));
}

#[test]
fn x_mul_inverse_approximates_one() {
    let one_fp = Wide256::from_u128(1_000_000_000_000_000_000);
    assert_eq!(x_mul_inverse(Wide256::from_u128(1)), Ok(one_fp));
    assert_eq!(x_mul_inverse(one_fp), Ok(one_fp));
    assert_eq!(
        x_mul_inverse(Wide256::from_u128(3)),
        Ok(Wide256::from_u128(999_999_999_999_999_999))
    );
    assert_eq!(
        x_mul_inverse(Wide256::from_u128(700_000_000_000_000_000)),
        Ok(Wide256::from_u128(999_999_999_999_999_999))
    );
    assert_eq!(
        x_mul_inverse(Wide256::from_u128(500_000_000_000_000_000_000_000_000_000_000_000)),
        Ok(one_fp)
    );
}

#[test]
fn x_mul_inverse_overflow_above_ceiling() {
    assert_eq!(
        x_mul_inverse(Wide256::from_u128(
            500_000_000_000_000_000_000_000_000_000_000_001
        )),
        Err(MathError::Overflow)
    );
}

#[test]
fn curve_get_d_zero_passes_through() {
    assert_eq!(curve_get_D(Wide256::zero()), Ok(Wide256::zero()));
}

#[test]
fn curve_get_d_saturated_passes_through() {
    let sat = Wide256::from_u128(u128::MAX); // 2^128 - 1, the ceiling itself
    assert_eq!(curve_get_D(sat), Ok(sat));
    let above = Wide256::from_parts(1, 0); // 2^128
    assert_eq!(curve_get_D(above), Ok(above));
}

#[test]
fn curve_get_d_converges() {
    assert_eq!(
        curve_get_D(Wide256::from_u128(100)),
        Ok(Wide256::from_u128(22_202_483_964_270))
    );
    assert_eq!(
        curve_get_D(Wide256::from_u128(100_000_000_000_000_000)),
        Ok(Wide256::from_u128(124_846_030_792_704_825))
    );
}

#[test]
fn curve_get_d_sentinel_on_non_convergence() {
    assert_eq!(
        curve_get_D(Wide256::from_u128(1_000_000_000_000_000_000)),
        Ok(Wide256::from_u128(100_000_000_000_000_000))
    );
}

#[test]
fn curve_get_d_overflow() {
    assert_eq!(
        curve_get_D(Wide256::from_u128(1_000_000_000_000_000_000_000_000_000_000)),
        Err(MathError::Overflow)
    );
}

#[test]
fn curve_get_y_d_cases() {
    assert_eq!(curve_get_y_D(Wide256::zero()), Ok(Wide256::zero()));
    assert_eq!(
        curve_get_y_D(Wide256::from_u128(1_000_000_000_000_000_000)),
        Ok(Wide256::from_u128(369_822_687_453_045))
    );
    assert_eq!(
        curve_get_y_D(Wide256::from_u128(3_000_000_000_000_000_000)),
        Ok(Wide256::from_u128(1_000_000_000_000_000_000))
    );
    assert_eq!(
        curve_get_y_D(Wide256::from_u128(100_000_000_000_000_000_000)),
        Ok(Wide256::from_u128(97_926_710_068_637_577_980))
    );
}

#[test]
fn curve_get_y_d_overflow() {
    // 10^40 overflows the squaring step.
    let big = Wide256::from_parts(29, 131_811_359_292_784_559_562_136_384_478_721_867_776);
    assert_eq!(curve_get_y_D(big), Err(MathError::Overflow));
}

#[test]
fn loss_of_rewards_is_remainder() {
    assert_eq!(loss_of_rewards(Wide256::zero()), Wide256::zero());
    assert_eq!(
        loss_of_rewards(Wide256::from_u128(10)),
        Wide256::from_u128(7) // 2^127 mod 11
    );
    assert_eq!(
        loss_of_rewards(Wide256::from_u128(12_345_678_901_234_567_890)),
        Wide256::from_u128(8_269_960_395_024_134_488)
    );
}

#[test]
fn loss_of_rewards_zero_above_ceiling() {
    let ceiling = Wide256::from_parts(4_194_304, 0); // 2^150
    assert_eq!(loss_of_rewards(ceiling), Wide256::zero());
}
