use amm_invariants::sampler::descriptor;
use amm_invariants::sampler::eval_model;
use amm_invariants::sampler::sample_batch;
use amm_invariants::sampler::split_outcomes;
use amm_invariants::sampler::ModelKind;
use amm_invariants::sampler::SampleInput;
use amm_invariants::sampler::SampleOutcome;
use amm_invariants::wide::MathError;
use amm_invariants::wide::Wide256;

#[test]
fn descriptors_expose_bounds_metadata() {
    let d = descriptor(ModelKind::CurveGetD);
    assert_eq!(d.kind, ModelKind::CurveGetD);
    assert_eq!(d.domain_format.radix, 10);
    assert_eq!(d.domain_format.places, 18);
    assert_eq!(d.num_points.default, 5000);
    assert_eq!(d.num_points.min, 100);
    assert_eq!(d.num_points.max, 10000);

    let y = descriptor(ModelKind::YearnCalcSupply);
    assert_eq!(y.num_points.default, 100);
    assert_eq!(y.num_points.min, 5);

    let m = descriptor(ModelKind::XMulInverse);
    assert_eq!(m.codomain_format.radix, 10);
    assert_eq!(m.num_points.default, 5000);
}

#[test]
fn eval_model_dispatches() {
    assert_eq!(
        eval_model(ModelKind::CurveGetD, Wide256::zero()),
        Ok(Wide256::zero())
    );
    assert_eq!(
        eval_model(ModelKind::XMulInverse, Wide256::from_u128(1)),
        Ok(Wide256::from_u128(1_000_000_000_000_000_000))
    );
    assert_eq!(
        eval_model(ModelKind::YearnCalcSupply, Wide256::from_u128(3_530_246_247_551_768)),
        Ok(Wide256::zero())
    );
}

#[test]
fn sample_batch_isolates_failures() {
    let inputs = vec![
        SampleInput::NonFinite,
        SampleInput::Finite(Wide256::zero()),
        SampleInput::Finite(Wide256::from_u128(
            500_000_000_000_000_000_000_000_000_000_000_001,
        )),
        SampleInput::Finite(Wide256::from_u128(3)),
    ];
    let out = sample_batch(ModelKind::XMulInverse, &inputs);
    assert_eq!(out.len(), inputs.len());
    assert_eq!(out[0], SampleOutcome::Direct);
    assert_eq!(
        sample_batch(ModelKind::XMulInverse, &vec![SampleInput::Unencodable]),
        vec![SampleOutcome::Failed(MathError::Overflow)]
    );
    assert_eq!(out[1], SampleOutcome::Value(Wide256::zero()));
    assert_eq!(out[2], SampleOutcome::Failed(MathError::Overflow));
    assert_eq!(
        out[3],
        SampleOutcome::Value(Wide256::from_u128(999_999_999_999_999_999))
    );
}

#[test]
fn split_outcomes_partitions_every_point() {
    let inputs = vec![
        SampleInput::NonFinite,
        SampleInput::Finite(Wide256::zero()),
        SampleInput::Finite(Wide256::from_u128(
            500_000_000_000_000_000_000_000_000_000_000_001,
        )),
        SampleInput::Finite(Wide256::from_u128(1)),
    ];
    let out = sample_batch(ModelKind::XMulInverse, &inputs);
    let (succ, fail) = split_outcomes(&out);
    assert_eq!(succ, vec![0, 1, 3]);
    assert_eq!(fail, vec![2]);
    assert_eq!(succ.len() + fail.len(), inputs.len());
}

#[test]
fn sampling_is_deterministic() {
    let inputs = vec![
        SampleInput::Finite(Wide256::from_u128(100)),
        SampleInput::Finite(Wide256::from_u128(1_000_000_000_000_000_000)),
        SampleInput::Finite(Wide256::from_u128(1_000_000_000_000_000_000_000_000_000_000)),
    ];
    let first = sample_batch(ModelKind::CurveGetD, &inputs);
    let second = sample_batch(ModelKind::CurveGetD, &inputs);
    assert_eq!(first, second);
    let (s1, f1) = split_outcomes(&first);
    let (s2, f2) = split_outcomes(&second);
    assert_eq!(s1, s2);
    assert_eq!(f1, f2);
}
