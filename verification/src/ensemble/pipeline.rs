//! How a column is prepared: the stages of each normalization, and the places of values among
//! quantiles.
//!
//! Values are held as the bits of doubles.

use vstd::prelude::*;

use crate::ensemble::config_gen::NormMethod;
use crate::float_bits;

verus! {

/// The most quantiles that are kept of a column.
pub const MAX_QUANTILES: usize = 1000;

/// One stage of a column's preparation. It is fitted on the training rows as the stages before left
/// them, and applied to all rows.
#[derive(Debug, Clone, Copy, PartialEq, Eq, Structural)]
pub enum Stage {
    /// To mean zero and deviation one, with a floor on the deviation.
    CustomStandard,
    Power,
    /// Noise on the training rows alone.
    Noise,
    Quantile,
    Standard,
    Robust,
    /// What lies far out is drawn in.
    Outliers,
}

/// The stages of a normalization.
pub open spec fn stages_of(method: NormMethod) -> Seq<Stage> {
    let middle = match method {
        NormMethod::Identity => Seq::empty(),
        NormMethod::Power => seq![Stage::Power],
        NormMethod::Quantile => seq![Stage::Quantile],
        NormMethod::QuantileRtdl => seq![Stage::Noise, Stage::Quantile, Stage::Standard],
        NormMethod::Robust => seq![Stage::Robust],
    };
    seq![Stage::CustomStandard] + middle + seq![Stage::Outliers]
}

/// The stages of a normalization.
pub fn stages(method: NormMethod) -> (r: Vec<Stage>)
    ensures
        r@ == stages_of(method),
{
    let r: Vec<Stage> = match method {
        NormMethod::Identity => vec![Stage::CustomStandard, Stage::Outliers],
        NormMethod::Power => vec![Stage::CustomStandard, Stage::Power, Stage::Outliers],
        NormMethod::Quantile => vec![Stage::CustomStandard, Stage::Quantile, Stage::Outliers],
        NormMethod::QuantileRtdl => vec![
            Stage::CustomStandard,
            Stage::Noise,
            Stage::Quantile,
            Stage::Standard,
            Stage::Outliers,
        ],
        NormMethod::Robust => vec![Stage::CustomStandard, Stage::Robust, Stage::Outliers],
    };
    assert(r@ =~= stages_of(method));
    r
}

/// Every preparation starts by standardizing and ends with the outliers.
pub proof fn law_stages_framed(method: NormMethod)
    ensures
        stages_of(method).len() >= 2,
        stages_of(method)[0] == Stage::CustomStandard,
        stages_of(method).last() == Stage::Outliers,
{
}

/// How many quantiles are kept of so many values.
pub fn quantile_count(n: usize) -> (r: usize)
    ensures
        r == (if n < 1 {
            1
        } else if n < MAX_QUANTILES {
            n
        } else {
            MAX_QUANTILES
        }),
{
    if n < 1 {
        1
    } else if n < MAX_QUANTILES {
        n
    } else {
        MAX_QUANTILES
    }
}

/// Quantiles with each that is less than the one before raised to it.
pub open spec fn raised(q: Seq<u64>) -> Seq<u64>
    decreases q.len(),
{
    if q.len() <= 1 {
        q
    } else {
        let before = raised(q.drop_last());
        before.push(
            if float_bits::greater(before.last(), q.last()) {
                before.last()
            } else {
                q.last()
            },
        )
    }
}

proof fn lemma_raised_len(q: Seq<u64>)
    ensures
        raised(q).len() == q.len(),
    decreases q.len(),
{
    if q.len() > 1 {
        lemma_raised_len(q.drop_last());
    }
}

/// Raises each quantile that is less than the one before.
pub fn raise(q: &[u64]) -> (r: Vec<u64>)
    ensures
        r@ == raised(q@),
{
    let mut out: Vec<u64> = Vec::new();
    let mut i: usize = 0;
    assert(q@.take(0) =~= Seq::empty());
    while i < q.len()
        invariant
            i <= q@.len(),
            out@.len() == i,
            out@ == raised(q@.take(i as int)),
        decreases q@.len() - i,
    {
        let ghost next = q@.take(i + 1);
        assert(next.drop_last() =~= q@.take(i as int));
        assert(next.last() == q@[i as int]);
        let v: u64 = q[i];
        if i > 0 && float_bits::is_greater(out[i - 1], v) {
            let last: u64 = out[i - 1];
            out.push(last);
        } else {
            out.push(v);
        }
        assert(out@ =~= raised(next));
        i += 1;
    }
    assert(q@.take(i as int) =~= q@);
    out
}

/// Quantiles that are raised go up, where all are numbers.
pub proof fn law_raised_ascends(q: Seq<u64>, i: int, j: int)
    requires
        forall|k: int| 0 <= k < q.len() ==> !float_bits::nan(#[trigger] q[k]),
        0 <= i <= j < q.len(),
    ensures
        raised(q).len() == q.len(),
        float_bits::at_most(raised(q)[i], raised(q)[j]),
    decreases q.len(),
{
    lemma_raised_len(q);
    if q.len() > 1 {
        let before = q.drop_last();
        lemma_raised_len(before);
        assert forall|k: int| 0 <= k < before.len() implies !float_bits::nan(#[trigger] before[k]) by {
            assert(before[k] == q[k]);
        }
        if j < before.len() {
            law_raised_ascends(before, i, j);
        } else if i < before.len() {
            law_raised_ascends(before, i, before.len() - 1);
        } else {
            law_raised_ascends(before, before.len() - 1, before.len() - 1);
        }
    }
}

/// Where a value lies among ascending numbers.
#[derive(Debug, Clone, Copy, PartialEq, Eq, Structural)]
pub enum Among {
    /// It is no greater than the first.
    First,
    /// It is no less than the last.
    Last,
    /// It lies between the number at this place and the next.
    Between(usize),
}

/// Whether numbers go up.
pub open spec fn ascending(xs: Seq<u64>) -> bool {
    &&& forall|i: int| 0 <= i < xs.len() ==> !float_bits::nan(#[trigger] xs[i])
    &&& forall|i: int, j: int|
        0 <= i < j < xs.len() ==> float_bits::at_most(#[trigger] xs[i], #[trigger] xs[j])
}

/// Where a number lies among ascending ones: at the first or the last where it is not inside, else
/// behind the last that is no greater.
pub fn locate(x: u64, xs: &[u64]) -> (r: Among)
    requires
        xs@.len() > 0,
        ascending(xs@),
        !float_bits::nan(x),
    ensures
        match r {
            Among::First => float_bits::at_most(x, xs@[0]),
            Among::Last => !float_bits::at_most(x, xs@[0]) && float_bits::at_most(xs@.last(), x),
            Among::Between(i) => {
                &&& i + 1 < xs@.len()
                &&& float_bits::at_most(xs@[i as int], x)
                &&& float_bits::greater(xs@[i + 1], x)
                &&& !float_bits::at_most(x, xs@[0])
            },
        },
{
    let n: usize = xs.len();
    if float_bits::is_at_most(x, xs[0]) {
        return Among::First;
    }
    if float_bits::is_at_most(xs[n - 1], x) {
        return Among::Last;
    }
    let mut low: usize = 0;
    let mut high: usize = n - 1;
    assert(!float_bits::nan(xs@[0]) && !float_bits::nan(xs@[n - 1]));
    while high - low > 1
        invariant
            low < high < n == xs@.len(),
            ascending(xs@),
            !float_bits::nan(x),
            float_bits::at_most(xs@[low as int], x),
            float_bits::greater(xs@[high as int], x),
        decreases high - low,
    {
        let mid: usize = low + (high - low) / 2;
        assert(!float_bits::nan(xs@[mid as int]));
        if float_bits::is_at_most(xs[mid], x) {
            low = mid;
        } else {
            high = mid;
        }
    }
    Among::Between(low)
}

/// The stages of each way of scaling.
pub proof fn law_stages_of_methods()
    ensures
        stages_of(NormMethod::Identity) == seq![Stage::CustomStandard, Stage::Outliers],
        stages_of(NormMethod::Power) == seq![Stage::CustomStandard, Stage::Power, Stage::Outliers],
        stages_of(NormMethod::Quantile) == seq![Stage::CustomStandard, Stage::Quantile, Stage::Outliers],
        stages_of(NormMethod::QuantileRtdl) == seq![
            Stage::CustomStandard,
            Stage::Noise,
            Stage::Quantile,
            Stage::Standard,
            Stage::Outliers,
        ],
        stages_of(NormMethod::Robust) == seq![Stage::CustomStandard, Stage::Robust, Stage::Outliers],
{
}

/// Each value is raised to the greatest up to it: it is one of them, and no one of them is greater.
pub proof fn law_raised_to_the_greatest(q: Seq<u64>, i: int, j: int)
    requires
        forall|k: int| 0 <= k < q.len() ==> !float_bits::nan(#[trigger] q[k]),
        0 <= j <= i < q.len(),
    ensures
        raised(q).len() == q.len(),
        !float_bits::greater(q[j], raised(q)[i]),
        exists|k: int| 0 <= k <= i && #[trigger] q[k] == raised(q)[i],
    decreases q.len(),
{
    lemma_raised_len(q);
    if q.len() > 1 {
        let r = q.drop_last();
        lemma_raised_len(r);
        assert forall|k: int| 0 <= k < r.len() implies !float_bits::nan(#[trigger] r[k]) by {
            assert(r[k] == q[k]);
        }
        if i < r.len() {
            law_raised_to_the_greatest(r, i, j);
            let k = choose|k: int| 0 <= k <= i && #[trigger] r[k] == raised(r)[i];
            assert(q[k] == raised(q)[i]);
        } else {
            let t = if j < r.len() { j } else { r.len() - 1 };
            law_raised_to_the_greatest(r, r.len() - 1, t);
            let k = choose|k: int| 0 <= k <= r.len() - 1 && #[trigger] r[k] == raised(r)[r.len() - 1];
            assert(q[k] == r[k]);
            assert(raised(r).last() == q[k]);
        }
    } else {
        assert(q[i] == raised(q)[i]);
    }
}

} // verus!
