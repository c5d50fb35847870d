//! The resilient batch-evaluation harness. A model descriptor binds one of
//! the invariant solvers to its fixed-point formats and sample-count range;
//! the sampler classifies each encoded point independently, so one failing
//! sample never aborts the batch, and the partition into success and
//! failure sets covers every point exactly once.

use vstd::prelude::*;

use crate::curve::curve_get_D;
use crate::curve::spec_curve_get_d;

use crate::functions::spec_x_mul_inverse;
use crate::functions::x_mul_inverse;
use crate::maths::FixedPointFormat;
use crate::maths::FixedPointNumPoints;
use crate::wide::lemma_as_nat_injective;
use crate::wide::res_as_nat;
use crate::wide::MathError;
use crate::wide::Wide256;
use crate::yearn::spec_yearn_calc_supply;
use crate::yearn::yearn_calc_supply;

verus! {

/// The models the sampler can drive.
#[derive(Clone, Copy, Debug, PartialEq, Eq, Structural)]
pub enum ModelKind {
    CurveGetD,
    YearnCalcSupply,
    XMulInverse,
}

/// A configuration record binding a model function to its domain and
/// codomain fixed-point formats and its suggested sample-count range.
/// Immutable once constructed; the sampler only reads it.
#[derive(Clone, Copy, Debug, PartialEq, Eq, Structural)]
pub struct ModelDescriptor {
    pub kind: ModelKind,
    pub domain_format: FixedPointFormat,
    pub codomain_format: FixedPointFormat,
    pub num_points: FixedPointNumPoints,
}

/// The descriptor of each model, with the frozen formats and point counts.
pub open spec fn spec_descriptor(kind: ModelKind) -> ModelDescriptor {
    match kind {
        ModelKind::CurveGetD => ModelDescriptor {
            kind,
            domain_format: FixedPointFormat { radix: 10, places: 18 },
            codomain_format: FixedPointFormat { radix: 10, places: 18 },
            num_points: FixedPointNumPoints { default: 5000, min: 100, max: 10000 },
        },
        ModelKind::YearnCalcSupply => ModelDescriptor {
            kind,
            domain_format: FixedPointFormat { radix: 10, places: 18 },
            codomain_format: FixedPointFormat { radix: 10, places: 18 },
            num_points: FixedPointNumPoints { default: 100, min: 5, max: 10000 },
        },
        ModelKind::XMulInverse => ModelDescriptor {
            kind,
            domain_format: FixedPointFormat { radix: 10, places: 18 },
            codomain_format: FixedPointFormat { radix: 10, places: 18 },
            num_points: FixedPointNumPoints { default: 5000, min: 100, max: 10000 },
        },
    }
}

pub fn descriptor(kind: ModelKind) -> (d: ModelDescriptor)
    ensures
        d == spec_descriptor(kind),
{
    match kind {
        ModelKind::CurveGetD => ModelDescriptor {
            kind,
            domain_format: FixedPointFormat { radix: 10, places: 18 },
            codomain_format: FixedPointFormat { radix: 10, places: 18 },
            num_points: FixedPointNumPoints { default: 5000, min: 100, max: 10000 },
        },
        ModelKind::YearnCalcSupply => ModelDescriptor {
            kind,
            domain_format: FixedPointFormat { radix: 10, places: 18 },
            codomain_format: FixedPointFormat { radix: 10, places: 18 },
            num_points: FixedPointNumPoints { default: 100, min: 5, max: 10000 },
        },
        ModelKind::XMulInverse => ModelDescriptor {
            kind,
            domain_format: FixedPointFormat { radix: 10, places: 18 },
            codomain_format: FixedPointFormat { radix: 10, places: 18 },
            num_points: FixedPointNumPoints { default: 5000, min: 100, max: 10000 },
        },
    }
}

/// What a model returns for an encoded domain value.
pub open spec fn spec_eval_model(kind: ModelKind, x: nat) -> Result<nat, MathError> {
    match kind {
        ModelKind::CurveGetD => spec_curve_get_d(x),
        ModelKind::YearnCalcSupply => spec_yearn_calc_supply(x),
        ModelKind::XMulInverse => spec_x_mul_inverse(x),
    }
}

/// Evaluates one model on one encoded domain value; every failure of the
/// model comes back as a value, never as a panic.
pub fn eval_model(kind: ModelKind, x: Wide256) -> (r: Result<Wide256, MathError>)
    ensures
        res_as_nat(r) == spec_eval_model(kind, x.as_nat()),
{
    match kind {
        ModelKind::CurveGetD => curve_get_D(x),
        ModelKind::YearnCalcSupply => yearn_calc_supply(x),
        ModelKind::XMulInverse => x_mul_inverse(x),
    }
}

/// One encoded sample point: the grid x was non-finite (a defined
/// shortcut), or finite but too large for the 256-bit domain representation
/// (the encode step fails with `Overflow`), or encoded exactly.
#[derive(Clone, Copy, Debug, PartialEq, Eq, Structural)]
pub enum SampleInput {
    NonFinite,
    Unencodable,
    Finite(Wide256),
}

/// The classification of one sample point.
#[derive(Clone, Copy, Debug, PartialEq, Eq, Structural)]
pub enum SampleOutcome {
    /// Non-finite x: recorded in the success set with a zero display value,
    /// bypassing the model.
    Direct,
    /// The model succeeded; the codomain value awaits decoding.
    Value(Wide256),
    /// The model failed; the point belongs to the failure set.
    Failed(MathError),
}

/// The classification the sampler owes for one input.
pub open spec fn outcome_matches(kind: ModelKind, inp: SampleInput, o: SampleOutcome) -> bool {
    match inp {
        SampleInput::NonFinite => o == SampleOutcome::Direct,
        SampleInput::Unencodable => o == SampleOutcome::Failed(MathError::Overflow),
        SampleInput::Finite(x) => match spec_eval_model(kind, x.as_nat()) {
            Ok(v) => o matches SampleOutcome::Value(w) && w.as_nat() == v,
            Err(e) => o == SampleOutcome::Failed(e),
        },
    }
}

/// Classifies a batch of encoded sample points, isolating each point's
/// failure: the output has one outcome per input, and every outcome is the
/// one the model owes for that input alone.
pub fn sample_batch(kind: ModelKind, inputs: &Vec<SampleInput>) -> (out: Vec<SampleOutcome>)
    ensures
        out@.len() == inputs@.len(),
        forall|k: int| 0 <= k < inputs@.len() ==> outcome_matches(kind, inputs@[k], #[trigger] out@[k]),
{
    let mut out: Vec<SampleOutcome> = Vec::new();
    let mut i: usize = 0;
    while i < inputs.len()
        invariant
            i <= inputs@.len(),
            out@.len() == i,
            forall|k: int| 0 <= k < i ==> outcome_matches(kind, inputs@[k], #[trigger] out@[k]),
        decreases inputs@.len() - i,
    {
        let o = match inputs[i] {
            SampleInput::NonFinite => SampleOutcome::Direct,
            SampleInput::Unencodable => SampleOutcome::Failed(MathError::Overflow),
            SampleInput::Finite(x) => match eval_model(kind, x) {
                Ok(v) => SampleOutcome::Value(v),
                Err(e) => SampleOutcome::Failed(e),
            },
        };
        out.push(o);
        i = i + 1;
    }
    out
}

/// Whether an outcome belongs to the success set.
pub open spec fn spec_is_success(o: SampleOutcome) -> bool {
    !(o is Failed)
}

/// The indices of the success points, in order.
pub open spec fn success_indices(s: Seq<SampleOutcome>) -> Seq<int>
    decreases s.len(),
{
    if s.len() == 0 {
        Seq::empty()
    } else if spec_is_success(s.last()) {
        success_indices(s.drop_last()).push(s.len() - 1)
    } else {
        success_indices(s.drop_last())
    }
}

/// The indices of the failure points, in order.
pub open spec fn failure_indices(s: Seq<SampleOutcome>) -> Seq<int>
    decreases s.len(),
{
    if s.len() == 0 {
        Seq::empty()
    } else if spec_is_success(s.last()) {
        failure_indices(s.drop_last())
    } else {
        failure_indices(s.drop_last()).push(s.len() - 1)
    }
}

/// Splits classified outcomes into the success and failure index sets, each
/// in left-to-right order.
pub fn split_outcomes(out: &Vec<SampleOutcome>) -> (r: (Vec<usize>, Vec<usize>))
    ensures
        r.0@.map_values(|v: usize| v as int) == success_indices(out@),
        r.1@.map_values(|v: usize| v as int) == failure_indices(out@),
{
    let mut succ: Vec<usize> = Vec::new();
    let mut fail: Vec<usize> = Vec::new();
    let mut i: usize = 0;
    while i < out.len()
        invariant
            i <= out@.len(),
            succ@.map_values(|v: usize| v as int) == success_indices(out@.take(i as int)),
            fail@.map_values(|v: usize| v as int) == failure_indices(out@.take(i as int)),
        decreases out@.len() - i,
    {
        let ghost prev_succ = succ@;
        let ghost prev_fail = fail@;
        match out[i] {
            SampleOutcome::Failed(_) => fail.push(i),
            _ => succ.push(i),
        }
        proof {
            assert(out@.take(i + 1 as int).drop_last() =~= out@.take(i as int));
            assert(out@.take(i + 1 as int).last() == out@[i as int]);
            assert(succ@.map_values(|v: usize| v as int) =~= prev_succ.map_values(
                |v: usize| v as int,
            ).push(i as int) || succ@ == prev_succ);
            if spec_is_success(out@[i as int]) {
                assert(succ@ == prev_succ.push(i));
                assert(succ@.map_values(|v: usize| v as int) =~= prev_succ.map_values(
                    |v: usize| v as int,
                ).push(i as int));
            } else {
                assert(fail@ == prev_fail.push(i));
                assert(fail@.map_values(|v: usize| v as int) =~= prev_fail.map_values(
                    |v: usize| v as int,
                ).push(i as int));
            }
        }
        i = i + 1;
    }
    proof {
        assert(out@.take(out@.len() as int) =~= out@);
    }
    (succ, fail)
}

/// Law: the success and failure index sets partition the batch — their
/// sizes always sum to the number of sampled points.
pub proof fn lemma_partition_counts(s: Seq<SampleOutcome>)
    ensures
        success_indices(s).len() + failure_indices(s).len() == s.len(),
    decreases s.len(),
{
    if s.len() > 0 {
        lemma_partition_counts(s.drop_last());
    }
}

/// Every index in either set lies within the sequence.
proof fn lemma_indices_below(s: Seq<SampleOutcome>)
    ensures
        forall|j: int|
            0 <= j < success_indices(s).len() ==> 0 <= (#[trigger] success_indices(s)[j])
                < s.len(),
        forall|j: int|
            0 <= j < failure_indices(s).len() ==> 0 <= (#[trigger] failure_indices(s)[j])
                < s.len(),
    decreases s.len(),
{
    if s.len() > 0 {
        lemma_indices_below(s.drop_last());
        assert forall|j: int| 0 <= j < success_indices(s).len() implies 0 <= (
        #[trigger] success_indices(s)[j]) < s.len() by {
            if !(spec_is_success(s.last()) && j == success_indices(s).len() - 1) {
                assert(success_indices(s)[j] == success_indices(s.drop_last())[j]);
            }
        }
        assert forall|j: int| 0 <= j < failure_indices(s).len() implies 0 <= (
        #[trigger] failure_indices(s)[j]) < s.len() by {
            if !(!spec_is_success(s.last()) && j == failure_indices(s).len() - 1) {
                assert(failure_indices(s)[j] == failure_indices(s.drop_last())[j]);
            }
        }
    }
}

/// Law: the partition is complete and faithful — an index is in the success
/// set exactly when its outcome succeeded, and in the failure set exactly
/// when it failed, so the two sets together cover the evenly spaced grid
/// and nothing else.
pub proof fn lemma_partition_complete(s: Seq<SampleOutcome>, k: int)
    requires
        0 <= k < s.len(),
    ensures
        success_indices(s).contains(k) <==> spec_is_success(s[k]),
        failure_indices(s).contains(k) <==> !spec_is_success(s[k]),
    decreases s.len(),
{
    lemma_indices_below(s.drop_last());
    if k == s.len() - 1 {
        if spec_is_success(s[k]) {
            assert(success_indices(s).last() == k);
            assert(success_indices(s).contains(k));
            assert(!failure_indices(s).contains(k)) by {
                if spec_is_success(s.last()) {
                    assert(failure_indices(s) == failure_indices(s.drop_last()));
                }
            }
        } else {
            assert(failure_indices(s).last() == k);
            assert(failure_indices(s).contains(k));
            assert(!success_indices(s).contains(k)) by {
                assert(success_indices(s) == success_indices(s.drop_last()));
            }
        }
    } else {
        lemma_partition_complete(s.drop_last(), k);
        assert(s.drop_last()[k] == s[k]);
        if spec_is_success(s.last()) {
            assert(success_indices(s) == success_indices(s.drop_last()).push(s.len() - 1));
            assert(success_indices(s).contains(k) <==> success_indices(s.drop_last()).contains(
                k,
            )) by {
                lemma_push_contains(success_indices(s.drop_last()), s.len() - 1, k);
            }
            assert(failure_indices(s) == failure_indices(s.drop_last()));
        } else {
            assert(failure_indices(s) == failure_indices(s.drop_last()).push(s.len() - 1));
            assert(failure_indices(s).contains(k) <==> failure_indices(s.drop_last()).contains(
                k,
            )) by {
                lemma_push_contains(failure_indices(s.drop_last()), s.len() - 1, k);
            }
            assert(success_indices(s) == success_indices(s.drop_last()));
        }
    }
}

/// Pushing a fresh value does not change membership of other values.
proof fn lemma_push_contains(s: Seq<int>, v: int, k: int)
    requires
        k != v,
    ensures
        s.push(v).contains(k) <==> s.contains(k),
{
    if s.contains(k) {
        let w = choose|w: int| 0 <= w < s.len() && s[w] == k;
        assert(s.push(v)[w] == k);
    }
    if s.push(v).contains(k) {
        let w = choose|w: int| 0 <= w < s.push(v).len() && s.push(v)[w] == k;
        assert(s[w] == k);
    }
}

/// Law: each index set is strictly increasing, so both point sets keep the
/// left-to-right order of the grid.
pub proof fn lemma_partition_ordered(s: Seq<SampleOutcome>)
    ensures
        forall|j1: int, j2: int|
            0 <= j1 < j2 < success_indices(s).len() ==> (#[trigger] success_indices(s)[j1]) < (
            #[trigger] success_indices(s)[j2]),
        forall|j1: int, j2: int|
            0 <= j1 < j2 < failure_indices(s).len() ==> (#[trigger] failure_indices(s)[j1]) < (
            #[trigger] failure_indices(s)[j2]),
    decreases s.len(),
{
    if s.len() > 0 {
        lemma_partition_ordered(s.drop_last());
        lemma_indices_below(s.drop_last());
        assert forall|j1: int, j2: int|
            0 <= j1 < j2 < success_indices(s).len() implies (#[trigger] success_indices(s)[j1])
            < (#[trigger] success_indices(s)[j2]) by {
            assert(success_indices(s)[j1] == success_indices(s.drop_last())[j1]);
            if !(spec_is_success(s.last()) && j2 == success_indices(s).len() - 1) {
                assert(success_indices(s)[j2] == success_indices(s.drop_last())[j2]);
            }
        }
        assert forall|j1: int, j2: int|
            0 <= j1 < j2 < failure_indices(s).len() implies (#[trigger] failure_indices(s)[j1])
            < (#[trigger] failure_indices(s)[j2]) by {
            assert(failure_indices(s)[j1] == failure_indices(s.drop_last())[j1]);
            if !(!spec_is_success(s.last()) && j2 == failure_indices(s).len() - 1) {
                assert(failure_indices(s)[j2] == failure_indices(s.drop_last())[j2]);
            }
        }
    }
}

/// Law: a whole sampling pass is deterministic — any two outcome sequences
/// classified for the same model and the same encoded inputs are equal, so
/// re-running a pass with identical arguments yields identical success and
/// failure sets.
pub proof fn lemma_batch_deterministic(
    kind: ModelKind,
    inputs: Seq<SampleInput>,
    out1: Seq<SampleOutcome>,
    out2: Seq<SampleOutcome>,
)
    requires
        out1.len() == inputs.len(),
        out2.len() == inputs.len(),
        forall|k: int| 0 <= k < inputs.len() ==> outcome_matches(kind, inputs[k], #[trigger] out1[k]),
        forall|k: int| 0 <= k < inputs.len() ==> outcome_matches(kind, inputs[k], #[trigger] out2[k]),
    ensures
        out1 == out2,
{
    assert forall|k: int| 0 <= k < inputs.len() implies out1[k] == out2[k] by {
        lemma_classification_deterministic(kind, inputs[k], out1[k], out2[k]);
    }
    assert(out1 =~= out2);
}

/// Law: sampling is deterministic — for one model and one encoded input
/// there is exactly one classification, so re-running a pass with identical
/// arguments yields identical outcomes.
pub proof fn lemma_classification_deterministic(
    kind: ModelKind,
    inp: SampleInput,
    o1: SampleOutcome,
    o2: SampleOutcome,
)
    requires
        outcome_matches(kind, inp, o1),
        outcome_matches(kind, inp, o2),
    ensures
        o1 == o2,
{
    match inp {
        SampleInput::NonFinite => {},
        SampleInput::Unencodable => {},
        SampleInput::Finite(x) => {
            match spec_eval_model(kind, x.as_nat()) {
                Ok(_) => {
                    match (o1, o2) {
                        (SampleOutcome::Value(w1), SampleOutcome::Value(w2)) => {
                            lemma_as_nat_injective(w1, w2);
                        },
                        _ => {},
                    }
                },
                Err(_) => {},
            }
        },
    }
}

} // verus!

