//! Combining the windows of several models.
//!
//! A combination has a window wherever all of its models have one, and goes through them in order.
//! For each window its strategy says by which rule the forecasts are combined and what is carried
//! over to the next window; the arithmetic itself is on floating-point numbers and not here.

use vstd::prelude::*;

use crate::bench::cache::{EnsembleResult, Metrics};
use crate::bench::ensemble;
use crate::bench::ensemble::Method;
use crate::bench::model_id::ModelId;
use crate::bench::windows::{WindowResult, WindowView, NOT_A_NUMBER};
use crate::float_bits;

verus! {

/// The windows of one model.
#[derive(Debug)]
pub struct ModelRun {
    pub id: ModelId,
    pub windows: Vec<Option<WindowResult>>,
}

/// Where the weights of a weighted mean come from.
#[derive(Debug, Clone, Copy, PartialEq, Eq, Structural)]
pub enum Weights {
    /// The inverse of each model's mean error over all windows.
    Fixed,
    /// The inverse of each model's error on the window before.
    Online,
    /// Weights that shrink with every error.
    Hedge,
    /// A running mean of the inverse errors.
    Smooth,
    /// The inverse of each forecast's spread.
    Spread,
}

/// How the forecasts for a window are combined.
#[derive(Debug, Clone, Copy, PartialEq, Eq, Structural)]
pub enum Rule {
    Mean,
    Median,
    Weighted(Weights),
    /// The mean without the least and the greatest value of each step.
    Trimmed,
    Softmax,
    Geometric,
    /// The forecast of one model.
    Chosen(usize),
    /// Weights for every step of the horizon.
    PerStep,
}

/// What is carried over to the next window.
#[derive(Debug, Clone, Copy, PartialEq, Eq, Structural)]
pub enum Carry {
    Nothing,
    /// The inverse errors.
    InverseErrors,
    /// The weights, shrunk by the errors and normalized.
    ShrunkWeights,
    /// The running mean of the inverse errors.
    SmoothedInverses,
    /// The running mean of the errors.
    SmoothedErrors,
    /// The running mean of the inverse errors of every step.
    SmoothedSteps,
    /// The errors.
    Errors,
}

/// The bits of the weight of a model that has none, one thousand-millionth.
pub const NO_WEIGHT: u64 = 0x3e11_2e0b_e826_d695;

/// Whether a place is the first least one.
pub open spec fn is_first_least(keys: Seq<u64>, i: int) -> bool {
    0 <= i < keys.len() && forall|j: int|
        0 <= j < keys.len() && j != i ==> #[trigger] float_bits::sorts_before(keys, i, j)
}

/// The rule for a window. `earlier` is the number of windows before it, and `errors` are the models'
/// running errors, of which the least one chooses.
pub open spec fn rule_for(method: Method, n_models: nat, earlier: nat, errors: Seq<u64>, r: Rule) -> bool {
    match method {
        Method::Mean => r == Rule::Mean,
        Method::Median => r == Rule::Median,
        Method::Weighted => r == Rule::Weighted(Weights::Fixed),
        Method::Trim => r == if n_models <= 2 {
            Rule::Mean
        } else {
            Rule::Trimmed
        },
        Method::Softmax => r == Rule::Softmax,
        Method::Geometric => r == Rule::Geometric,
        Method::Online => r == Rule::Weighted(Weights::Online),
        Method::Adaptive => r == Rule::Weighted(Weights::Hedge),
        Method::Smooth => r == Rule::Weighted(Weights::Smooth),
        Method::Select => if earlier == 0 {
            r == Rule::Mean
        } else {
            r matches Rule::Chosen(i) && (is_first_least(errors, i as int) || (errors.len() == 0 && i == 0))
        },
        Method::PerHoriz => r == if earlier == 0 {
            Rule::Mean
        } else {
            Rule::PerStep
        },
        Method::Uncertain => r == Rule::Weighted(Weights::Spread),
    }
}

fn least(keys: &[u64]) -> (r: usize)
    ensures
        is_first_least(keys@, r as int) || (keys@.len() == 0 && r == 0),
{
    let mut keep: Vec<bool> = Vec::new();
    while keep.len() < keys.len()
        invariant
            keep@.len() <= keys@.len(),
            forall|i: int| 0 <= i < keep@.len() ==> #[trigger] keep@[i],
        decreases keys@.len() - keep@.len(),
    {
        keep.push(true);
    }
    match float_bits::first_least(keys, keep.as_slice()) {
        Some(i) => {
            assert forall|j: int| 0 <= j < keys@.len() && j != i implies #[trigger] float_bits::sorts_before(
                keys@,
                i as int,
                j,
            ) by {
                assert(keep@[j]);
            }
            i
        },
        None => {
            assert(keys@.len() > 0 ==> keep@[0]);
            0
        },
    }
}

/// The rule for a window.
pub fn rule_of(method: Method, n_models: usize, earlier: usize, errors: &[u64]) -> (r: Rule)
    ensures
        rule_for(method, n_models as nat, earlier as nat, errors@, r),
{
    match method {
        Method::Mean => Rule::Mean,
        Method::Median => Rule::Median,
        Method::Weighted => Rule::Weighted(Weights::Fixed),
        Method::Trim => if n_models <= 2 {
            Rule::Mean
        } else {
            Rule::Trimmed
        },
        Method::Softmax => Rule::Softmax,
        Method::Geometric => Rule::Geometric,
        Method::Online => Rule::Weighted(Weights::Online),
        Method::Adaptive => Rule::Weighted(Weights::Hedge),
        Method::Smooth => Rule::Weighted(Weights::Smooth),
        Method::Select => if earlier == 0 {
            Rule::Mean
        } else {
            Rule::Chosen(least(errors))
        },
        Method::PerHoriz => if earlier == 0 {
            Rule::Mean
        } else {
            Rule::PerStep
        },
        Method::Uncertain => Rule::Weighted(Weights::Spread),
    }
}

/// What is carried over to the next window.
pub fn carry_of(method: Method) -> (r: Carry)
    ensures
        r == (match method {
            Method::Online => Carry::InverseErrors,
            Method::Adaptive => Carry::ShrunkWeights,
            Method::Smooth => Carry::SmoothedInverses,
            Method::Select => Carry::SmoothedErrors,
            Method::PerHoriz => Carry::SmoothedSteps,
            Method::Uncertain => Carry::Errors,
            _ => Carry::Nothing,
        }),
{
    match method {
        Method::Online => Carry::InverseErrors,
        Method::Adaptive => Carry::ShrunkWeights,
        Method::Smooth => Carry::SmoothedInverses,
        Method::Select => Carry::SmoothedErrors,
        Method::PerHoriz => Carry::SmoothedSteps,
        Method::Uncertain => Carry::Errors,
        _ => Carry::Nothing,
    }
}

/// Whether the bits of a single are those of a finite number.
pub open spec fn single_finite(b: u32) -> bool {
    (b / 0x80_0000) % 256 != 255
}

/// The models whose forecasts have a finite spread; the others are weighted by their last error.
pub fn have_spread(spreads: &[u32]) -> (r: Vec<bool>)
    ensures
        r@ == spreads@.map_values(|b: u32| single_finite(b)),
{
    let mut out: Vec<bool> = Vec::new();
    let mut i: usize = 0;
    while i < spreads.len()
        invariant
            i <= spreads@.len(),
            out@.len() == i,
            forall|q: int| 0 <= q < i ==> #[trigger] out@[q] == single_finite(spreads@[q]),
        decreases spreads@.len() - i,
    {
        out.push((spreads[i] / 0x80_0000) % 256 != 255);
        i += 1;
    }
    assert(out@ =~= spreads@.map_values(|b: u32| single_finite(b)));
    out
}

/// The values in the total order.
pub open spec fn sorted_of(col: Seq<u64>, s: Seq<u64>) -> bool {
    exists|order: Seq<usize>|
        #[trigger] float_bits::is_stable_order(order, col) && s.len() == col.len() && forall|i: int|
            0 <= i < s.len() ==> #[trigger] s[i] == col[order[i] as int]
}

/// The values in the total order.
pub fn sorted_column(col: &[u64]) -> (r: Vec<u64>)
    ensures
        sorted_of(col@, r@),
        r@.len() == col@.len(),
        forall|i: int, j: int|
            0 <= i < j < r@.len() ==> float_bits::total_rank(#[trigger] r@[i]) <= float_bits::total_rank(
                #[trigger] r@[j],
            ),
{
    let order: Vec<usize> = float_bits::stable_order(col);
    let mut out: Vec<u64> = Vec::new();
    let mut i: usize = 0;
    while i < order.len()
        invariant
            i <= order@.len(),
            float_bits::is_stable_order(order@, col@),
            out@.len() == i,
            forall|q: int| 0 <= q < i ==> #[trigger] out@[q] == col@[order@[q] as int],
        decreases order@.len() - i,
    {
        assert(order@[i as int] < col@.len());
        out.push(col[order[i]]);
        i += 1;
    }
    assert forall|p: int, q: int| 0 <= p < q < out@.len() implies float_bits::total_rank(#[trigger] out@[p])
        <= float_bits::total_rank(#[trigger] out@[q]) by {
        assert(float_bits::sorts_before(col@, order@[p] as int, order@[q] as int));
    }
    out
}

/// The two values in the middle, which are one and the same where there is an odd number of values.
pub fn middle(col: &[u64]) -> (r: (u64, u64))
    requires
        col@.len() > 0,
    ensures
        exists|s: Seq<u64>| #[trigger] sorted_of(col@, s) && r.1 == s[col@.len() as int / 2] && r.0 == (if col@.len() % 2 == 1 {
            s[col@.len() as int / 2]
        } else {
            s[col@.len() as int / 2 - 1]
        }),
{
    let s: Vec<u64> = sorted_column(col);
    let n: usize = s.len();
    assert(sorted_of(col@, s@));
    if n % 2 == 1 {
        (s[n / 2], s[n / 2])
    } else {
        (s[n / 2 - 1], s[n / 2])
    }
}

/// The values without the least and the greatest one.
pub fn trimmed(col: &[u64]) -> (r: Vec<u64>)
    requires
        col@.len() >= 2,
    ensures
        exists|s: Seq<u64>| #[trigger] sorted_of(col@, s) && r@ == s.subrange(1, s.len() - 1),
{
    let s: Vec<u64> = sorted_column(col);
    assert(sorted_of(col@, s@));
    let mut out: Vec<u64> = Vec::new();
    let mut i: usize = 1;
    while i < s.len() - 1
        invariant
            1 <= i <= s@.len() - 1,
            out@ == s@.subrange(1, i as int),
        decreases s@.len() - i,
    {
        out.push(s[i]);
        i += 1;
        assert(out@ =~= s@.subrange(1, i as int));
    }
    out
}

/// The weight of a model.
pub open spec fn weight_from(weights: Seq<(ModelId, u64)>, id: ModelId, from: int) -> u64
    decreases weights.len() - from,
{
    if from >= weights.len() {
        NO_WEIGHT
    } else if weights[from].0 == id {
        weights[from].1
    } else {
        weight_from(weights, id, from + 1)
    }
}

/// The weights of the models of a combination; one without a weight gets the least.
pub fn combo_weights(weights: &Vec<(ModelId, u64)>, combo: &[ModelId]) -> (r: Vec<u64>)
    ensures
        r@ == combo@.map_values(|id: ModelId| weight_from(weights@, id, 0)),
{
    let mut out: Vec<u64> = Vec::new();
    let mut i: usize = 0;
    while i < combo.len()
        invariant
            i <= combo@.len(),
            out@.len() == i,
            forall|q: int| 0 <= q < i ==> #[trigger] out@[q] == weight_from(weights@, combo@[q], 0),
        decreases combo@.len() - i,
    {
        let id: ModelId = combo[i];
        let mut j: usize = 0;
        while j < weights.len() && weights[j].0 != id
            invariant
                j <= weights@.len(),
                weight_from(weights@, id, 0) == weight_from(weights@, id, j as int),
            decreases weights@.len() - j,
        {
            j += 1;
        }
        out.push(if j < weights.len() { weights[j].1 } else { NO_WEIGHT });
        i += 1;
    }
    assert(out@ =~= combo@.map_values(|id: ModelId| weight_from(weights@, id, 0)));
    out
}

/// Whether no model occurs twice, and all have the same number of windows.
pub open spec fn well_formed(all: Seq<ModelRun>) -> bool {
    &&& forall|i: int, j: int| 0 <= i < j < all.len() ==> (#[trigger] all[i]).id != (#[trigger] all[j]).id
    &&& forall|i: int| 0 <= i < all.len() ==> (#[trigger] all[i]).windows@.len() == all[0].windows@.len()
}

/// The number of windows.
pub open spec fn window_count(all: Seq<ModelRun>) -> nat {
    if all.len() == 0 {
        0
    } else {
        all[0].windows@.len()
    }
}

/// Whether the model has window `i`.
pub open spec fn has_window(all: Seq<ModelRun>, id: ModelId, i: int) -> bool {
    exists|k: int| 0 <= k < all.len() && (#[trigger] all[k]).id == id && all[k].windows@[i] is Some
}

/// Whether all models have window `i`.
pub open spec fn all_have(all: Seq<ModelRun>, combo: Seq<ModelId>, i: int) -> bool {
    forall|c: int| 0 <= c < combo.len() ==> has_window(all, #[trigger] combo[c], i)
}

/// The run of a model that has window `i`.
fn run_with_window(all: &Vec<ModelRun>, id: ModelId, i: usize) -> (r: Option<usize>)
    requires
        well_formed(all@),
        i < window_count(all@),
    ensures
        match r {
            Some(k) => k < all@.len() && all@[k as int].id == id && all@[k as int].windows@[i as int] is Some,
            None => !has_window(all@, id, i as int),
        },
{
    let mut k: usize = 0;
    while k < all.len()
        invariant
            k <= all@.len(),
            well_formed(all@),
            i < window_count(all@),
            forall|q: int|
                0 <= q < k ==> !((#[trigger] all@[q]).id == id && all@[q].windows@[i as int] is Some),
        decreases all@.len() - k,
    {
        if all[k].id == id {
            match &all[k].windows[i] {
                Some(_) => {
                    return Some(k);
                },
                None => {},
            }
        }
        k += 1;
    }
    None
}

/// Whether all models have window `i`.
fn is_shared(all: &Vec<ModelRun>, combo: &[ModelId], i: usize) -> (r: bool)
    requires
        well_formed(all@),
        i < window_count(all@),
    ensures
        r == all_have(all@, combo@, i as int),
{
    let mut c: usize = 0;
    while c < combo.len()
        invariant
            c <= combo@.len(),
            well_formed(all@),
            i < window_count(all@),
            forall|q: int| 0 <= q < c ==> has_window(all@, #[trigger] combo@[q], i as int),
        decreases combo@.len() - c,
    {
        match run_with_window(all, combo[c], i) {
            Some(_) => {},
            None => {
                return false;
            },
        }
        c += 1;
    }
    true
}

/// Whether `at` lists, in order, the windows below `n` that all models have.
pub open spec fn lists_shared(at: Seq<usize>, all: Seq<ModelRun>, combo: Seq<ModelId>, n: int) -> bool {
    &&& forall|p: int, q: int| 0 <= p < q < at.len() ==> #[trigger] at[p] < #[trigger] at[q]
    &&& forall|p: int| 0 <= p < at.len() ==> #[trigger] at[p] < n && all_have(all, combo, at[p] as int)
    &&& forall|i: int| 0 <= i < n && #[trigger] all_have(all, combo, i) ==> at.contains(i as usize)
}

/// The windows that all models of a combination have, in order.
pub fn shared_windows(all: &Vec<ModelRun>, combo: &[ModelId]) -> (r: Vec<usize>)
    requires
        well_formed(all@),
    ensures
        lists_shared(r@, all@, combo@, window_count(all@) as int),
{
    let n: usize = if all.len() == 0 { 0 } else { all[0].windows.len() };
    let mut out: Vec<usize> = Vec::new();
    let mut i: usize = 0;
    while i < n
        invariant
            i <= n == window_count(all@),
            well_formed(all@),
            lists_shared(out@, all@, combo@, i as int),
        decreases n - i,
    {
        let ghost before = out@;
        if is_shared(all, combo, i) {
            out.push(i);
        }
        assert forall|k: int| 0 <= k < i + 1 && #[trigger] all_have(all@, combo@, k) implies out@.contains(
            k as usize,
        ) by {
            if k < i {
                let p = choose|p: int| 0 <= p < before.len() && before[p] == k as usize;
                assert(out@[p] == k as usize);
            } else {
                assert(out@[before.len() as int] == k as usize);
            }
        }
        i += 1;
    }
    out
}

/// What a combination has for one window: the forecasts and their spreads, in the order of the
/// models, and what really came and the context, which are those of the first model.
#[derive(Debug)]
pub struct Gathered {
    pub points: Vec<Vec<u32>>,
    pub spreads: Vec<u32>,
    pub truth: Vec<u32>,
    pub context: Vec<u32>,
}

/// Window `i` of a model.
pub open spec fn window_of(all: Seq<ModelRun>, id: ModelId, i: int) -> WindowView {
    let k = choose|k: int| 0 <= k < all.len() && (#[trigger] all[k]).id == id && all[k].windows@[i] is Some;
    all[k].windows@[i]->Some_0@
}

proof fn lemma_window_of(all: Seq<ModelRun>, id: ModelId, i: int, k: int)
    requires
        well_formed(all),
        0 <= k < all.len(),
        all[k].id == id,
        all[k].windows@[i] is Some,
    ensures
        window_of(all, id, i) == all[k].windows@[i]->Some_0@,
{
    let m = choose|k: int| 0 <= k < all.len() && (#[trigger] all[k]).id == id && all[k].windows@[i] is Some;
    if m < k {
        assert(all[m].id != all[k].id);
    } else if k < m {
        assert(all[k].id != all[m].id);
    }
}

fn copied(v: &Vec<u32>) -> (r: Vec<u32>)
    ensures
        r@ == v@,
{
    let mut out: Vec<u32> = Vec::new();
    out.extend_from_slice(v.as_slice());
    assert(out@ =~= v@);
    out
}

/// What a combination has for a window that all of its models have.
pub fn gather(all: &Vec<ModelRun>, combo: &[ModelId], i: usize) -> (r: Gathered)
    requires
        well_formed(all@),
        combo@.len() > 0,
        i < window_count(all@),
        all_have(all@, combo@, i as int),
    ensures
        r.points@.len() == combo@.len(),
        r.spreads@.len() == combo@.len(),
        forall|c: int|
            0 <= c < combo@.len() ==> (#[trigger] r.points@[c])@ == window_of(all@, combo@[c], i as int).point,
        forall|c: int|
            0 <= c < combo@.len() ==> #[trigger] r.spreads@[c] == window_of(all@, combo@[c], i as int).iqr,
        r.truth@ == window_of(all@, combo@[0], i as int).truth,
        r.context@ == window_of(all@, combo@[0], i as int).context,
{
    let mut points: Vec<Vec<u32>> = Vec::new();
    let mut spreads: Vec<u32> = Vec::new();
    let mut truth: Vec<u32> = Vec::new();
    let mut context: Vec<u32> = Vec::new();
    let mut c: usize = 0;
    while c < combo.len()
        invariant
            c <= combo@.len(),
            well_formed(all@),
            i < window_count(all@),
            all_have(all@, combo@, i as int),
            points@.len() == c,
            spreads@.len() == c,
            forall|q: int|
                0 <= q < c ==> (#[trigger] points@[q])@ == window_of(all@, combo@[q], i as int).point,
            forall|q: int| 0 <= q < c ==> #[trigger] spreads@[q] == window_of(all@, combo@[q], i as int).iqr,
            c > 0 ==> truth@ == window_of(all@, combo@[0], i as int).truth,
            c > 0 ==> context@ == window_of(all@, combo@[0], i as int).context,
        decreases combo@.len() - c,
    {
        assert(has_window(all@, combo@[c as int], i as int));
        match run_with_window(all, combo[c], i) {
            Some(k) => {
                proof {
                    lemma_window_of(all@, combo@[c as int], i as int, k as int);
                }
                match &all[k].windows[i] {
                    Some(w) => {
                        points.push(copied(&w.point));
                        spreads.push(w.iqr);
                        if c == 0 {
                            truth = copied(&w.truth);
                            context = copied(&w.context);
                        }
                    },
                    None => {},
                }
            },
            None => {},
        }
        c += 1;
    }
    Gathered { points, spreads, truth, context }
}

/// The combination's window: the combined forecast, and what really came and the context.
pub fn combined_window(g: Gathered, point: Vec<u32>) -> (r: WindowResult)
    ensures
        r@ == (WindowView { point: point@, truth: g.truth@, context: g.context@, iqr: NOT_A_NUMBER }),
{
    WindowResult { point, truth: g.truth, context: g.context, iqr: NOT_A_NUMBER }
}

/// A combination of models and the strategy by which their forecasts are combined.
#[derive(Debug)]
pub struct EnsembleSpec {
    pub combo: Vec<ModelId>,
    pub method: Method,
}

/// Whether a model's mean error gives it a weight: it is a finite number above zero.
pub open spec fn weighable(mae: u64) -> bool {
    float_bits::finite(mae) && float_bits::greater(mae, 0)
}

/// Whether a model's mean error gives it a weight.
pub fn has_weight(mae: u64) -> (r: bool)
    ensures
        r == weighable(mae),
{
    float_bits::is_finite(mae) && float_bits::is_greater(mae, 0)
}

/// How many models of a combination are among the weighted ones.
pub open spec fn weighted_count(combo: Seq<ModelId>, weighted: Seq<ModelId>) -> nat
    decreases combo.len(),
{
    if combo.len() == 0 {
        0
    } else {
        weighted_count(combo.drop_last(), weighted) + (if weighted.contains(combo.last()) {
            1nat
        } else {
            0
        })
    }
}

/// Whether a strategy is tried on a combination: a trimmed mean needs three models, and fixed weights
/// need two models that have one.
pub open spec fn tried(combo: Seq<ModelId>, method: Method, weighted: Seq<ModelId>) -> bool {
    &&& method == Method::Trim ==> combo.len() >= 3
    &&& method.uses_static_weights() ==> weighted_count(combo, weighted) >= 2
}

fn count_weighted(combo: &Vec<ModelId>, weighted: &Vec<ModelId>) -> (r: usize)
    ensures
        r == weighted_count(combo@, weighted@),
{
    let mut n: usize = 0;
    let mut i: usize = 0;
    assert(combo@.take(0) =~= Seq::empty());
    while i < combo.len()
        invariant
            i <= combo@.len(),
            n <= i,
            n == weighted_count(combo@.take(i as int), weighted@),
        decreases combo@.len() - i,
    {
        let ghost next = combo@.take(i + 1);
        assert(next.drop_last() =~= combo@.take(i as int));
        let mut j: usize = 0;
        while j < weighted.len() && weighted[j] != combo[i]
            invariant
                i < combo@.len(),
                j <= weighted@.len(),
                forall|q: int| 0 <= q < j ==> weighted@[q] != combo@[i as int],
            decreases weighted@.len() - j,
        {
            j += 1;
        }
        if j < weighted.len() {
            n += 1;
        }
        i += 1;
    }
    assert(combo@.take(i as int) =~= combo@);
    n
}

/// The strategies tried on a combination, among the first `m`.
pub open spec fn tries(combo: Seq<ModelId>, weighted: Seq<ModelId>, m: nat) -> Seq<(Seq<ModelId>, Method)>
    decreases m,
{
    if m == 0 {
        Seq::empty()
    } else {
        let before = tries(combo, weighted, (m - 1) as nat);
        let method = ensemble::all_methods()[m - 1];
        if tried(combo, method, weighted) {
            before.push((combo, method))
        } else {
            before
        }
    }
}

/// The strategies tried on the first `m` combinations.
pub open spec fn tries_on(combos: Seq<Seq<ModelId>>, weighted: Seq<ModelId>, m: nat) -> Seq<(Seq<ModelId>, Method)>
    decreases m,
{
    if m == 0 {
        Seq::empty()
    } else {
        tries_on(combos, weighted, (m - 1) as nat) + tries(
            combos[m - 1],
            weighted,
            ensemble::all_methods().len(),
        )
    }
}

/// All that is tried with combinations of up to `size` models: smaller ones first, each size in the
/// order of the models, and on each combination the strategies in their order.
pub open spec fn tries_up_to(order: Seq<ModelId>, weighted: Seq<ModelId>, size: nat) -> Seq<(Seq<ModelId>, Method)>
    decreases size,
{
    if size < 2 {
        Seq::empty()
    } else {
        let combos = ensemble::combinations_from(order, size, 0, Seq::empty());
        tries_up_to(order, weighted, (size - 1) as nat) + tries_on(combos, weighted, combos.len())
    }
}

/// What specifications say.
pub open spec fn specs(s: Seq<EnsembleSpec>) -> Seq<(Seq<ModelId>, Method)> {
    s.map_values(|e: EnsembleSpec| (e.combo@, e.method))
}

fn copied_ids(v: &Vec<ModelId>) -> (r: Vec<ModelId>)
    ensures
        r@ == v@,
{
    let mut out: Vec<ModelId> = Vec::new();
    let mut i: usize = 0;
    while i < v.len()
        invariant
            i <= v@.len(),
            out@ == v@.take(i as int),
        decreases v@.len() - i,
    {
        out.push(v[i]);
        i += 1;
        assert(out@ =~= v@.take(i as int));
    }
    assert(out@ =~= v@);
    out
}

fn push_tries(combo: &Vec<ModelId>, weighted: &Vec<ModelId>, out: &mut Vec<EnsembleSpec>)
    ensures
        specs(final(out)@) == specs(old(out)@) + tries(combo@, weighted@, ensemble::all_methods().len()),
{
    let methods: Vec<Method> = Method::all();
    let n: usize = count_weighted(combo, weighted);
    let mut i: usize = 0;
    assert(specs(out@) =~= specs(old(out)@) + tries(combo@, weighted@, 0));
    while i < methods.len()
        invariant
            i <= methods@.len(),
            methods@ == ensemble::all_methods(),
            n == weighted_count(combo@, weighted@),
            specs(out@) == specs(old(out)@) + tries(combo@, weighted@, i as nat),
        decreases methods@.len() - i,
    {
        let ghost before = out@;
        let method: Method = methods[i];
        let fits: bool = match method {
            Method::Trim => combo.len() >= 3,
            Method::Weighted | Method::Softmax => n >= 2,
            _ => true,
        };
        if fits {
            out.push(EnsembleSpec { combo: copied_ids(combo), method });
            assert(specs(out@) =~= specs(before).push((combo@, method)));
        }
        i += 1;
        assert(specs(out@) =~= specs(old(out)@) + tries(combo@, weighted@, i as nat));
    }
}

/// All combinations and strategies that are tried on models, given those that have a weight.
pub fn ensemble_plan(order: &[ModelId], weighted: &Vec<ModelId>) -> (r: Vec<EnsembleSpec>)
    ensures
        specs(r@) == tries_up_to(order@, weighted@, order@.len()),
{
    let mut out: Vec<EnsembleSpec> = Vec::new();
    let mut size: usize = 2;
    assert(specs(out@) =~= Seq::empty());
    if order.len() < 2 {
        return out;
    }
    while size <= order.len()
        invariant
            2 <= size,
            size - 1 <= order@.len(),
            specs(out@) == tries_up_to(order@, weighted@, (size - 1) as nat),
        decreases order@.len() + 1 - size,
    {
        let combos: Vec<Vec<ModelId>> = ensemble::combinations(order, size);
        let ghost rows = ensemble::rows_of(combos@);
        let ghost before = specs(out@);
        let mut i: usize = 0;
        assert(specs(out@) =~= before + tries_on(rows, weighted@, 0));
        while i < combos.len()
            invariant
                i <= combos@.len(),
                rows == ensemble::rows_of(combos@),
                specs(out@) == before + tries_on(rows, weighted@, i as nat),
            decreases combos@.len() - i,
        {
            assert(rows[i as int] == combos@[i as int]@);
            push_tries(&combos[i], weighted, &mut out);
            i += 1;
            assert(specs(out@) =~= before + tries_on(rows, weighted@, i as nat));
        }
        if size == order.len() {
            return out;
        }
        size += 1;
    }
    out
}

/// Every strategy that suits a combination of at least two models is tried on it, and no other.
pub proof fn law_plan_is_complete(order: Seq<ModelId>, weighted: Seq<ModelId>, combo: Seq<ModelId>, method: Method)
    requires
        2 <= combo.len() <= order.len(),
        ensemble::combinations_from(order, combo.len(), 0, Seq::empty()).contains(combo),
    ensures
        tries_up_to(order, weighted, order.len()).contains((combo, method)) <==> tried(combo, method, weighted),
{
    lemma_up_to(order, weighted, order.len(), combo, method);
}

proof fn lemma_up_to(order: Seq<ModelId>, weighted: Seq<ModelId>, size: nat, combo: Seq<ModelId>, method: Method)
    requires
        2 <= combo.len() <= size,
        ensemble::combinations_from(order, combo.len(), 0, Seq::empty()).contains(combo),
    ensures
        tries_up_to(order, weighted, size).contains((combo, method)) <==> tried(combo, method, weighted),
    decreases size,
{
    let combos = ensemble::combinations_from(order, size, 0, Seq::empty());
    let before = tries_up_to(order, weighted, (size - 1) as nat);
    let here = tries_on(combos, weighted, combos.len());
    let all = tries_up_to(order, weighted, size);
    assert(all == before + here);
    assert(combos.take(combos.len() as int) =~= combos);
    lemma_on(combos, weighted, combos.len(), combo, method);
    lemma_smaller(order, weighted, (size - 1) as nat, combo, method);
    if combo.len() < size {
        lemma_up_to(order, weighted, (size - 1) as nat, combo, method);
        if combos.contains(combo) {
            let q = choose|q: int| 0 <= q < combos.len() && combos[q] == combo;
            ensemble::law_combinations_in_order(order, size, q);
        }
    }
    if before.contains((combo, method)) {
        let q = choose|q: int| 0 <= q < before.len() && before[q] == (combo, method);
        assert(all[q] == (combo, method));
    }
    if here.contains((combo, method)) {
        let q = choose|q: int| 0 <= q < here.len() && here[q] == (combo, method);
        assert(all[before.len() + q] == (combo, method));
    }
    if all.contains((combo, method)) {
        let q = choose|q: int| 0 <= q < all.len() && all[q] == (combo, method);
        if q < before.len() {
            assert(before[q] == (combo, method));
        } else {
            assert(here[q - before.len()] == (combo, method));
        }
    }
}

proof fn lemma_smaller(order: Seq<ModelId>, weighted: Seq<ModelId>, size: nat, combo: Seq<ModelId>, method: Method)
    ensures
        tries_up_to(order, weighted, size).contains((combo, method)) ==> combo.len() <= size,
    decreases size,
{
    if size >= 2 {
        let combos = ensemble::combinations_from(order, size, 0, Seq::empty());
        let before = tries_up_to(order, weighted, (size - 1) as nat);
        let here = tries_on(combos, weighted, combos.len());
        let all = tries_up_to(order, weighted, size);
        lemma_smaller(order, weighted, (size - 1) as nat, combo, method);
        assert(combos.take(combos.len() as int) =~= combos);
        lemma_on(combos, weighted, combos.len(), combo, method);
        if all.contains((combo, method)) {
            let q = choose|q: int| 0 <= q < all.len() && all[q] == (combo, method);
            if q < before.len() {
                assert(before[q] == (combo, method));
            } else {
                assert(here[q - before.len()] == (combo, method));
                let k = choose|k: int| 0 <= k < combos.len() && combos[k] == combo;
                ensemble::law_combinations_in_order(order, size, k);
            }
        }
    }
}

proof fn lemma_on(combos: Seq<Seq<ModelId>>, weighted: Seq<ModelId>, m: nat, combo: Seq<ModelId>, method: Method)
    requires
        m <= combos.len(),
    ensures
        tries_on(combos, weighted, m).contains((combo, method)) <==> combos.take(m as int).contains(combo) && tried(
            combo,
            method,
            weighted,
        ),
    decreases m,
{
    if m == 0 {
        assert(tries_on(combos, weighted, 0) =~= Seq::empty());
        assert(combos.take(0) =~= Seq::empty());
    } else {
        let before = tries_on(combos, weighted, (m - 1) as nat);
        let here = tries(combos[m - 1], weighted, ensemble::all_methods().len());
        let all = tries_on(combos, weighted, m);
        lemma_on(combos, weighted, (m - 1) as nat, combo, method);
        lemma_tries(combos[m - 1], weighted, ensemble::all_methods().len(), combo, method);
        lemma_method_listed(method);
        let methods = ensemble::all_methods();
        assert(methods.take(methods.len() as int) =~= methods);
        let upto = combos.take(m as int);
        assert(upto =~= combos.take(m - 1).push(combos[m - 1]));
        if combos.take(m - 1).contains(combo) {
            let part = combos.take(m - 1);
            let q = choose|q: int| 0 <= q < part.len() && part[q] == combo;
            assert(upto[q] == combo);
        }
        if combos[m - 1] == combo {
            assert(upto[m - 1] == combo);
        }
        if upto.contains(combo) {
            let q = choose|q: int| 0 <= q < upto.len() && upto[q] == combo;
            assert(q < m - 1 ==> combos.take(m - 1)[q] == combo);
        }
        if before.contains((combo, method)) {
            let q = choose|q: int| 0 <= q < before.len() && before[q] == (combo, method);
            assert(all[q] == (combo, method));
        }
        if here.contains((combo, method)) {
            let q = choose|q: int| 0 <= q < here.len() && here[q] == (combo, method);
            assert(all[before.len() + q] == (combo, method));
        }
        if all.contains((combo, method)) {
            let q = choose|q: int| 0 <= q < all.len() && all[q] == (combo, method);
            if q < before.len() {
                assert(before[q] == (combo, method));
            } else {
                assert(here[q - before.len()] == (combo, method));
            }
        }
    }
}

proof fn lemma_method_listed(method: Method)
    ensures
        ensemble::all_methods().contains(method),
{
    let all = ensemble::all_methods();
    let i: int = match method {
        Method::Mean => 0,
        Method::Median => 1,
        Method::Weighted => 2,
        Method::Trim => 3,
        Method::Softmax => 4,
        Method::Geometric => 5,
        Method::Online => 6,
        Method::Adaptive => 7,
        Method::Smooth => 8,
        Method::Select => 9,
        Method::PerHoriz => 10,
        Method::Uncertain => 11,
    };
    assert(all[i] == method);
}

proof fn lemma_tries(c: Seq<ModelId>, weighted: Seq<ModelId>, m: nat, combo: Seq<ModelId>, method: Method)
    requires
        m <= ensemble::all_methods().len(),
    ensures
        tries(c, weighted, m).contains((combo, method)) <==> c == combo && tried(combo, method, weighted)
            && ensemble::all_methods().take(m as int).contains(method),
    decreases m,
{
    let methods = ensemble::all_methods();
    if m == 0 {
        assert(methods.take(0) =~= Seq::empty());
    } else {
        let before = tries(c, weighted, (m - 1) as nat);
        let all = tries(c, weighted, m);
        lemma_tries(c, weighted, (m - 1) as nat, combo, method);
        let upto = methods.take(m as int);
        assert(upto =~= methods.take(m - 1).push(methods[m - 1]));
        if methods.take(m - 1).contains(method) {
            let part = methods.take(m - 1);
            let q = choose|q: int| 0 <= q < part.len() && part[q] == method;
            assert(upto[q] == method);
        }
        if methods[m - 1] == method {
            assert(upto[m - 1] == method);
        }
        if upto.contains(method) {
            let q = choose|q: int| 0 <= q < upto.len() && upto[q] == method;
            assert(q < m - 1 ==> methods.take(m - 1)[q] == method);
        }
        if before.contains((combo, method)) {
            let q = choose|q: int| 0 <= q < before.len() && before[q] == (combo, method);
            assert(all[q] == (combo, method));
        }
        if all.contains((combo, method)) {
            let q = choose|q: int| 0 <= q < all.len() && all[q] == (combo, method);
            assert(q < before.len() ==> before[q] == (combo, method));
        }
        if tried(c, methods[m - 1], weighted) {
            assert(all[before.len() as int] == (c, methods[m - 1]));
        }
    }
}

/// The mean errors of results.
pub open spec fn maes(s: Seq<EnsembleResult>) -> Seq<u64> {
    s.map_values(|e: EnsembleResult| e.metrics.mae)
}

/// Whether the results are those given, by increasing mean error and equal ones in the order given.
pub open spec fn ranked(from: Seq<EnsembleResult>, to: Seq<EnsembleResult>) -> bool {
    exists|order: Seq<usize>|
        #[trigger] float_bits::is_stable_order(order, maes(from)) && to.len() == from.len() && forall|i: int|
            0 <= i < to.len() ==> (#[trigger] to[i]).name@ == from[order[i] as int].name@ && to[i].metrics
                == from[order[i] as int].metrics
}

/// The results by increasing mean error.
pub fn rank(results: &Vec<EnsembleResult>) -> (r: Vec<EnsembleResult>)
    ensures
        ranked(results@, r@),
{
    let mut keys: Vec<u64> = Vec::new();
    let mut i: usize = 0;
    while i < results.len()
        invariant
            i <= results@.len(),
            keys@.len() == i,
            forall|q: int| 0 <= q < i ==> #[trigger] keys@[q] == results@[q].metrics.mae,
        decreases results@.len() - i,
    {
        keys.push(results[i].metrics.mae);
        i += 1;
    }
    assert(keys@ =~= maes(results@));
    let order: Vec<usize> = float_bits::stable_order(keys.as_slice());
    let mut out: Vec<EnsembleResult> = Vec::new();
    let mut k: usize = 0;
    while k < order.len()
        invariant
            k <= order@.len(),
            float_bits::is_stable_order(order@, maes(results@)),
            out@.len() == k,
            forall|q: int|
                0 <= q < k ==> (#[trigger] out@[q]).name@ == results@[order@[q] as int].name@ && out@[q].metrics
                    == results@[order@[q] as int].metrics,
        decreases order@.len() - k,
    {
        assert(order@[k as int] < maes(results@).len());
        let e = &results[order[k]];
        let metrics: Metrics = e.metrics;
        out.push(EnsembleResult { name: e.name.as_str().to_string(), metrics });
        k += 1;
    }
    out
}

/// A single is finite where its bits, but for the sign, are less than those of infinity.
pub proof fn law_finite_singles(b: u32)
    ensures
        single_finite(b) <==> b % 0x8000_0000 < 0x7f80_0000,
{
}

/// How a strategy puts forecasts together: two models are never trimmed, and what looks back at
/// earlier windows is a plain mean on the first one. The chosen model is the one with the least error.
pub proof fn law_rules_of_strategies(n_models: nat, earlier: nat, errors: Seq<u64>, r: Rule)
    ensures
        rule_for(Method::Mean, n_models, earlier, errors, r) ==> r == Rule::Mean,
        rule_for(Method::Median, n_models, earlier, errors, r) ==> r == Rule::Median,
        rule_for(Method::Weighted, n_models, earlier, errors, r) ==> r == Rule::Weighted(Weights::Fixed),
        rule_for(Method::Trim, n_models, earlier, errors, r) && n_models >= 3 ==> r == Rule::Trimmed,
        rule_for(Method::Trim, n_models, earlier, errors, r) && n_models < 3 ==> r == Rule::Mean,
        rule_for(Method::Softmax, n_models, earlier, errors, r) ==> r == Rule::Softmax,
        rule_for(Method::Geometric, n_models, earlier, errors, r) ==> r == Rule::Geometric,
        rule_for(Method::Online, n_models, earlier, errors, r) ==> r == Rule::Weighted(Weights::Online),
        rule_for(Method::Adaptive, n_models, earlier, errors, r) ==> r == Rule::Weighted(Weights::Hedge),
        rule_for(Method::Smooth, n_models, earlier, errors, r) ==> r == Rule::Weighted(Weights::Smooth),
        rule_for(Method::Select, n_models, 0, errors, r) ==> r == Rule::Mean,
        rule_for(Method::Select, n_models, earlier, errors, r) && earlier > 0 ==> r is Chosen,
        rule_for(Method::Select, n_models, earlier, errors, r) && earlier > 0 && errors.len() > 0 ==> r->Chosen_0
            < errors.len() && forall|j: int|
            0 <= j < errors.len() ==> float_bits::total_rank(errors[r->Chosen_0 as int]) <= float_bits::total_rank(
                #[trigger] errors[j],
            ) && (errors[j] == errors[r->Chosen_0 as int] ==> r->Chosen_0 <= j),
        rule_for(Method::PerHoriz, n_models, 0, errors, r) ==> r == Rule::Mean,
        rule_for(Method::PerHoriz, n_models, earlier, errors, r) && earlier > 0 ==> r == Rule::PerStep,
        rule_for(Method::Uncertain, n_models, earlier, errors, r) ==> r == Rule::Weighted(Weights::Spread),
{
    if rule_for(Method::Select, n_models, earlier, errors, r) && earlier > 0 && errors.len() > 0 {
        let i = r->Chosen_0 as int;
        assert forall|j: int| 0 <= j < errors.len() implies float_bits::total_rank(errors[i]) <= float_bits::total_rank(
            #[trigger] errors[j],
        ) && (errors[j] == errors[i] ==> i <= j) by {
            if j != i {
                assert(float_bits::sorts_before(errors, i, j));
            }
        }
    }
}

/// A sorted column ascends and holds what the column holds, as often.
pub proof fn law_sorted_columns(col: Seq<u64>, s: Seq<u64>, i: int, j: int)
    requires
        sorted_of(col, s),
    ensures
        s.len() == col.len(),
        0 <= i <= j < s.len() ==> float_bits::total_rank(s[i]) <= float_bits::total_rank(s[j]),
        0 <= i < s.len() ==> col.contains(s[i]),
{
    let order = choose|order: Seq<usize>|
        #[trigger] float_bits::is_stable_order(order, col) && s.len() == col.len() && forall|i: int|
            0 <= i < s.len() ==> #[trigger] s[i] == col[order[i] as int];
    if 0 <= i < s.len() {
        assert(s[i] == col[order[i] as int]);
        assert(0 <= order[i] < col.len());
        if i < j < s.len() {
            assert(s[j] == col[order[j] as int]);
            assert(float_bits::sorts_before(col, order[i] as int, order[j] as int));
        }
    }
}

proof fn lemma_weight_at(weights: Seq<(ModelId, u64)>, id: ModelId, from: int, k: int)
    requires
        0 <= from <= k < weights.len(),
        weights[k].0 == id,
        forall|j: int| from <= j < k ==> (#[trigger] weights[j]).0 != id,
    ensures
        weight_from(weights, id, from) == weights[k].1,
    decreases k - from,
{
    if from < k {
        assert(weights[from].0 != id);
        lemma_weight_at(weights, id, from + 1, k);
    }
}

proof fn lemma_no_weight(weights: Seq<(ModelId, u64)>, id: ModelId, from: int)
    requires
        0 <= from <= weights.len(),
        forall|j: int| from <= j < weights.len() ==> (#[trigger] weights[j]).0 != id,
    ensures
        weight_from(weights, id, from) == 0x3e11_2e0b_e826_d695,
    decreases weights.len() - from,
{
    if from < weights.len() {
        assert(weights[from].0 != id);
        lemma_no_weight(weights, id, from + 1);
    }
}

/// A model's weight is the first one listed for it, and a billionth where there is none.
pub proof fn law_weights_by_model(weights: Seq<(ModelId, u64)>, id: ModelId, k: int)
    requires
        forall|j: int| 0 <= j < k && j < weights.len() ==> (#[trigger] weights[j]).0 != id,
    ensures
        0 <= k < weights.len() && weights[k].0 == id ==> weight_from(weights, id, 0) == weights[k].1,
        k >= weights.len() ==> weight_from(weights, id, 0) == 0x3e11_2e0b_e826_d695,
{
    if 0 <= k < weights.len() && weights[k].0 == id {
        lemma_weight_at(weights, id, 0, k);
    }
    if k >= weights.len() {
        lemma_no_weight(weights, id, 0);
    }
}

/// A shared window is one that every model of the combination has, and all such windows are shared,
/// in order.
pub proof fn law_shared_windows(at: Seq<usize>, all: Seq<ModelRun>, combo: Seq<ModelId>, n: int, i: usize, c: int)
    requires
        lists_shared(at, all, combo, n),
        0 <= c < combo.len(),
    ensures
        at.contains(i) ==> i < n && exists|k: int|
            0 <= k < all.len() && (#[trigger] all[k]).id == combo[c] && all[k].windows@[i as int] is Some,
        i < n && !at.contains(i) ==> exists|q: int|
            0 <= q < combo.len() && forall|k: int|
                0 <= k < all.len() && (#[trigger] all[k]).id == #[trigger] combo[q] ==> all[k].windows@[i as int] is None,
        forall|p: int, q: int| 0 <= p < q < at.len() ==> #[trigger] at[p] < #[trigger] at[q],
{
    if at.contains(i) {
        let p = choose|p: int| 0 <= p < at.len() && at[p] == i;
        assert(at[p] < n && all_have(all, combo, at[p] as int));
        assert(has_window(all, combo[c], i as int));
    } else if i < n {
        assert(!all_have(all, combo, i as int));
        let q = choose|q: int| 0 <= q < combo.len() && !has_window(all, #[trigger] combo[q], i as int);
        assert forall|k: int| 0 <= k < all.len() && (#[trigger] all[k]).id == combo[q] implies all[k].windows@[i as int] is None by {
            if all[k].windows@[i as int] is Some {
                assert(has_window(all, combo[q], i as int));
            }
        }
        assert(combo[q] == combo[q]);
    }
}

/// A model's window is that of its own run.
pub proof fn law_windows_of_models(all: Seq<ModelRun>, k: int, i: int)
    requires
        well_formed(all),
        0 <= k < all.len(),
        all[k].windows@[i] is Some,
    ensures
        window_of(all, all[k].id, i) == all[k].windows@[i]->Some_0@,
        window_count(all) == all[k].windows@.len(),
{
    lemma_window_of(all, all[k].id, i, k);
}

/// A model can be weighted by an error that is positive and finite.
pub proof fn law_weighable_errors(mae: u64)
    ensures
        weighable(mae) <==> 0 < mae < 0x7ff0_0000_0000_0000,
{
}

/// The weighted models of a combination are counted one by one.
pub proof fn law_weighted_are_counted(combo: Seq<ModelId>, id: ModelId, weighted: Seq<ModelId>)
    ensures
        weighted_count(Seq::empty(), weighted) == 0,
        weighted.contains(id) ==> weighted_count(combo.push(id), weighted) == weighted_count(combo, weighted) + 1,
        !weighted.contains(id) ==> weighted_count(combo.push(id), weighted) == weighted_count(combo, weighted),
{
    assert(combo.push(id).drop_last() =~= combo);
}

/// Trimming is tried on three models or more, weights where two or more models have one, and every
/// other strategy on every combination.
pub proof fn law_what_is_tried(combo: Seq<ModelId>, method: Method, weighted: Seq<ModelId>)
    ensures
        tried(combo, Method::Trim, weighted) <==> combo.len() >= 3,
        tried(combo, Method::Weighted, weighted) <==> weighted_count(combo, weighted) >= 2,
        tried(combo, Method::Softmax, weighted) <==> weighted_count(combo, weighted) >= 2,
        !(method is Trim || method is Weighted || method is Softmax) ==> tried(combo, method, weighted),
{
}

proof fn lemma_tries_sound(combo: Seq<ModelId>, weighted: Seq<ModelId>, m: nat, q: int)
    requires
        m <= ensemble::all_methods().len(),
        0 <= q < tries(combo, weighted, m).len(),
    ensures
        tries(combo, weighted, m)[q].0 == combo,
        tried(combo, tries(combo, weighted, m)[q].1, weighted),
    decreases m,
{
    if m > 0 && q < tries(combo, weighted, (m - 1) as nat).len() {
        lemma_tries_sound(combo, weighted, (m - 1) as nat, q);
    }
}

proof fn lemma_tries_on_sound(combos: Seq<Seq<ModelId>>, weighted: Seq<ModelId>, m: nat, q: int)
    requires
        m <= combos.len(),
        0 <= q < tries_on(combos, weighted, m).len(),
    ensures
        combos.contains(tries_on(combos, weighted, m)[q].0),
        tried(tries_on(combos, weighted, m)[q].0, tries_on(combos, weighted, m)[q].1, weighted),
    decreases m,
{
    if m > 0 {
        let before = tries_on(combos, weighted, (m - 1) as nat);
        if q < before.len() {
            lemma_tries_on_sound(combos, weighted, (m - 1) as nat, q);
        } else {
            lemma_tries_sound(combos[m - 1], weighted, ensemble::all_methods().len(), q - before.len());
        }
    }
}

/// Nothing is planned but combinations of two models or more, each with a strategy that is tried on
/// it; and smaller combinations come first.
pub proof fn law_plan_holds_nothing_else(order: Seq<ModelId>, weighted: Seq<ModelId>, size: nat, q: int)
    requires
        0 <= q < tries_up_to(order, weighted, size).len(),
    ensures
        ({
            let (combo, method) = tries_up_to(order, weighted, size)[q];
            &&& tried(combo, method, weighted)
            &&& exists|k: nat|
                2 <= k <= size && #[trigger] ensemble::combinations_from(order, k, 0, Seq::empty()).contains(combo)
        }),
        size > 2 && q < tries_up_to(order, weighted, (size - 1) as nat).len() ==> tries_up_to(order, weighted, size)[q]
            == tries_up_to(order, weighted, (size - 1) as nat)[q],
    decreases size,
{
    if size >= 2 {
        let combos = ensemble::combinations_from(order, size, 0, Seq::empty());
        let before = tries_up_to(order, weighted, (size - 1) as nat);
        if q < before.len() {
            law_plan_holds_nothing_else(order, weighted, (size - 1) as nat, q);
        } else {
            lemma_tries_on_sound(combos, weighted, combos.len(), q - before.len());
        }
    }
}

/// Ranked results ascend by their mean absolute error.
pub proof fn law_ranks_ascend(from: Seq<EnsembleResult>, to: Seq<EnsembleResult>, i: int, j: int)
    requires
        ranked(from, to),
        0 <= i < j < to.len(),
    ensures
        to.len() == from.len(),
        float_bits::total_rank(to[i].metrics.mae) <= float_bits::total_rank(to[j].metrics.mae),
        exists|k: int|
            0 <= k < from.len() && to[i].name@ == (#[trigger] from[k]).name@ && to[i].metrics == from[k].metrics,
{
    let order = choose|order: Seq<usize>|
        #[trigger] float_bits::is_stable_order(order, maes(from)) && to.len() == from.len() && forall|i: int|
            0 <= i < to.len() ==> (#[trigger] to[i]).name@ == from[order[i] as int].name@ && to[i].metrics
                == from[order[i] as int].metrics;
    assert(to[i].metrics == from[order[i] as int].metrics && to[j].metrics == from[order[j] as int].metrics);
    assert(0 <= order[i] < maes(from).len() && 0 <= order[j] < maes(from).len());
    assert(float_bits::sorts_before(maes(from), order[i] as int, order[j] as int));
    assert(from[order[i] as int].metrics == to[i].metrics);
}

} // verus!
