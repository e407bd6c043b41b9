//! Where a combination of models stands as it goes through its windows.
//!
//! Before a window comes the plan by which the forecasts are combined; after it, what really came
//! teaches the values that are carried over. The plan is made from the former windows alone. The
//! carried values are computed on floating-point numbers, and are here as their bits.

use vstd::prelude::*;

use crate::bench::combine;
use crate::bench::combine::{Rule, Weights};
use crate::bench::ensemble::Method;
use crate::bench::model_id::ModelId;
use crate::float_bits;

verus! {

/// The bits of one.
pub const ONE: u64 = 0x3ff0_0000_0000_0000;

/// The weight of a model in a window.
#[derive(Debug, Clone, Copy, PartialEq, Eq, Structural)]
pub enum Weight {
    /// The number of these bits.
    Plain(u64),
    /// The inverse of the number of these bits.
    Inverse(u64),
    /// The inverse of the spread of these bits.
    InverseSpread(u32),
}

/// How a window is combined.
#[derive(Debug)]
pub struct Plan {
    pub rule: Rule,
    pub weights: Vec<Weight>,
}

/// How a window is combined.
pub struct PlanView {
    pub rule: Rule,
    pub weights: Seq<Weight>,
}

impl View for Plan {
    type V = PlanView;

    open spec fn view(&self) -> PlanView {
        PlanView { rule: self.rule, weights: self.weights@ }
    }
}

/// Where a combination stands.
#[derive(Debug)]
pub struct Progress {
    method: Method,
    n_models: usize,
    earlier: usize,
    carried: Vec<u64>,
    steps: Vec<Vec<u64>>,
}

/// Where a combination stands: its strategy, how many models it has, how many windows it has been
/// through, the value that is carried for each model, and those for each step of the horizon.
#[verifier::ext_equal]
pub struct ProgressView {
    pub method: Method,
    pub n_models: nat,
    pub earlier: nat,
    pub carried: Seq<u64>,
    pub steps: Seq<Seq<u64>>,
}

/// What the windows teach: a value for each model, and one for each step of the horizon.
pub struct Lesson {
    pub carried: Seq<u64>,
    pub steps: Seq<Seq<u64>>,
}

/// What vectors hold.
pub open spec fn rows(s: Seq<Vec<u64>>) -> Seq<Seq<u64>> {
    s.map_values(|v: Vec<u64>| v@)
}

impl View for Progress {
    type V = ProgressView;

    closed spec fn view(&self) -> ProgressView {
        ProgressView {
            method: self.method,
            n_models: self.n_models as nat,
            earlier: self.earlier as nat,
            carried: self.carried@,
            steps: rows(self.steps@),
        }
    }
}

/// Whether a strategy carries a value for each model.
pub open spec fn carries_values(method: Method) -> bool {
    method is Online || method is Adaptive || method is Smooth || method is Select || method is Uncertain
}

/// Where a combination stands before its first window: every carried value is one.
pub open spec fn start(method: Method, n_models: nat, horizon: nat) -> ProgressView {
    ProgressView {
        method,
        n_models,
        earlier: 0,
        carried: Seq::new(n_models, |j: int| ONE),
        steps: Seq::new(n_models, |j: int| Seq::new(horizon, |t: int| ONE)),
    }
}

/// Where a combination stands after one more window.
pub open spec fn settled(p: ProgressView, l: Lesson) -> ProgressView {
    ProgressView {
        earlier: p.earlier + 1,
        carried: if carries_values(p.method) {
            l.carried
        } else {
            p.carried
        },
        steps: if p.method is PerHoriz {
            l.steps
        } else {
            p.steps
        },
        ..p
    }
}

/// Where a combination stands after windows that taught these lessons.
pub open spec fn after(method: Method, n_models: nat, horizon: nat, lessons: Seq<Lesson>) -> ProgressView
    decreases lessons.len(),
{
    if lessons.len() == 0 {
        start(method, n_models, horizon)
    } else {
        settled(after(method, n_models, horizon, lessons.drop_last()), lessons.last())
    }
}

/// The weight of model `j`. The fixed weights are used where the rule says so, and the spreads of the
/// forecasts where they are finite; else the carried values are.
pub open spec fn weight_of(
    p: ProgressView,
    rule: Rule,
    fixed: Seq<(ModelId, u64)>,
    combo: Seq<ModelId>,
    spreads: Seq<u32>,
    j: int,
) -> Weight {
    if rule == Rule::Weighted(Weights::Fixed) || rule == Rule::Softmax {
        Weight::Plain(combine::weight_from(fixed, combo[j], 0))
    } else if rule == Rule::Weighted(Weights::Spread) {
        if combine::single_finite(spreads[j]) {
            Weight::InverseSpread(spreads[j])
        } else {
            Weight::Inverse(p.carried[j])
        }
    } else {
        Weight::Plain(p.carried[j])
    }
}

/// Whether a window is to be combined so, by where the combination stands before it, the fixed weights
/// and the spreads of the forecasts.
pub open spec fn planned(
    p: ProgressView,
    fixed: Seq<(ModelId, u64)>,
    combo: Seq<ModelId>,
    spreads: Seq<u32>,
    plan: PlanView,
) -> bool {
    &&& combine::rule_for(p.method, p.n_models, p.earlier, p.carried, plan.rule)
    &&& plan.weights == Seq::new(combo.len(), |j: int| weight_of(p, plan.rule, fixed, combo, spreads, j))
}

impl Progress {
    /// A combination of `n_models` models before its first window.
    pub fn new(method: Method, n_models: usize, horizon: usize) -> (r: Self)
        ensures
            r@ == start(method, n_models as nat, horizon as nat),
    {
        let mut carried: Vec<u64> = Vec::new();
        let mut steps: Vec<Vec<u64>> = Vec::new();
        while carried.len() < n_models
            invariant
                carried@.len() <= n_models,
                carried@.len() == steps@.len(),
                forall|j: int| 0 <= j < carried@.len() ==> #[trigger] carried@[j] == ONE,
                forall|j: int|
                    0 <= j < steps@.len() ==> (#[trigger] steps@[j])@ == Seq::new(horizon as nat, |t: int| ONE),
            decreases n_models - carried@.len(),
        {
            let mut row: Vec<u64> = Vec::new();
            while row.len() < horizon
                invariant
                    row@.len() <= horizon,
                    forall|t: int| 0 <= t < row@.len() ==> #[trigger] row@[t] == ONE,
                decreases horizon - row@.len(),
            {
                row.push(ONE);
            }
            assert(row@ =~= Seq::new(horizon as nat, |t: int| ONE));
            carried.push(ONE);
            steps.push(row);
        }
        assert(carried@ =~= Seq::new(n_models as nat, |j: int| ONE));
        assert(rows(steps@) =~= Seq::new(n_models as nat, |j: int| Seq::new(horizon as nat, |t: int| ONE)));
        Progress { method, n_models, earlier: 0, carried, steps }
    }

    /// The values that are carried for each model.
    pub fn carried(&self) -> (r: &Vec<u64>)
        ensures
            r@ == self@.carried,
    {
        &self.carried
    }

    /// The values that are carried for each step of the horizon.
    pub fn steps(&self) -> (r: &Vec<Vec<u64>>)
        ensures
            rows(r@) == self@.steps,
    {
        &self.steps
    }

    /// How the next window is combined. What comes in that window is not asked for.
    pub fn plan(&self, fixed: &Vec<(ModelId, u64)>, combo: &[ModelId], spreads: &[u32]) -> (r: Plan)
        requires
            combo@.len() == self@.carried.len(),
            spreads@.len() == combo@.len(),
        ensures
            planned(self@, fixed@, combo@, spreads@, r@),
    {
        let rule: Rule = combine::rule_of(self.method, self.n_models, self.earlier, self.carried.as_slice());
        let given: Vec<u64> = combine::combo_weights(fixed, combo);
        let known: Vec<bool> = combine::have_spread(spreads);
        let mut weights: Vec<Weight> = Vec::new();
        let mut j: usize = 0;
        while j < combo.len()
            invariant
                j <= combo@.len(),
                combo@.len() == self.carried@.len(),
                combo@.len() == spreads@.len(),
                given@ == combo@.map_values(|id: ModelId| combine::weight_from(fixed@, id, 0)),
                known@ == spreads@.map_values(|b: u32| combine::single_finite(b)),
                weights@.len() == j,
                forall|q: int|
                    0 <= q < j ==> #[trigger] weights@[q] == weight_of(self@, rule, fixed@, combo@, spreads@, q),
            decreases combo@.len() - j,
        {
            let w: Weight = match rule {
                Rule::Weighted(Weights::Fixed) => Weight::Plain(given[j]),
                Rule::Softmax => Weight::Plain(given[j]),
                Rule::Weighted(Weights::Spread) => if known[j] {
                    Weight::InverseSpread(spreads[j])
                } else {
                    Weight::Inverse(self.carried[j])
                },
                _ => Weight::Plain(self.carried[j]),
            };
            weights.push(w);
            j += 1;
        }
        assert(weights@ =~= Seq::new(
            combo@.len(),
            |q: int| weight_of(self@, rule, fixed@, combo@, spreads@, q),
        ));
        Plan { rule, weights }
    }

    /// Goes on to the next window with the lesson of the last one, of which the strategy keeps what it
    /// carries.
    pub fn settle(&mut self, carried: Vec<u64>, steps: Vec<Vec<u64>>)
        requires
            old(self)@.earlier < usize::MAX,
        ensures
            final(self)@ == settled(old(self)@, (Lesson { carried: carried@, steps: rows(steps@) })),
    {
        self.earlier = self.earlier + 1;
        match self.method {
            Method::Online | Method::Adaptive | Method::Smooth | Method::Select | Method::Uncertain => {
                self.carried = carried;
            },
            Method::PerHoriz => {
                self.steps = steps;
            },
            _ => {},
        }
    }
}

/// A window is planned by the former windows alone: whatever it and the later ones teach, where the
/// former ones taught the same, the plan is the same, and so are the values it is carried out with.
pub proof fn law_plans_are_causal(
    method: Method,
    n_models: nat,
    horizon: nat,
    a: Seq<Lesson>,
    b: Seq<Lesson>,
    k: int,
    fixed: Seq<(ModelId, u64)>,
    combo: Seq<ModelId>,
    spreads: Seq<u32>,
    x: PlanView,
    y: PlanView,
)
    requires
        0 <= k <= a.len(),
        k <= b.len(),
        forall|i: int| 0 <= i < k ==> #[trigger] a[i] == b[i],
        planned(after(method, n_models, horizon, a.take(k)), fixed, combo, spreads, x),
        planned(after(method, n_models, horizon, b.take(k)), fixed, combo, spreads, y),
    ensures
        x == y,
        after(method, n_models, horizon, a.take(k)) == after(method, n_models, horizon, b.take(k)),
{
    assert(a.take(k) =~= b.take(k));
    let p = after(method, n_models, horizon, a.take(k));
    if p.method is Select && p.earlier > 0 {
        let i = x.rule->Chosen_0 as int;
        let j = y.rule->Chosen_0 as int;
        if i != j {
            assert(float_bits::sorts_before(p.carried, i, j));
            assert(float_bits::sorts_before(p.carried, j, i));
        }
    }
    assert(x.weights =~= y.weights);
}

/// Before a window, a combination has been through as many as have taught it something.
pub proof fn law_lessons_are_counted(method: Method, n_models: nat, horizon: nat, lessons: Seq<Lesson>)
    ensures
        after(method, n_models, horizon, lessons).earlier == lessons.len(),
        after(method, n_models, horizon, lessons).method == method,
        after(method, n_models, horizon, lessons).n_models == n_models,
    decreases lessons.len(),
{
    if lessons.len() > 0 {
        law_lessons_are_counted(method, n_models, horizon, lessons.drop_last());
    }
}

/// A strategy that carries nothing combines every window from the same values.
pub proof fn law_nothing_carried(method: Method, n_models: nat, horizon: nat, lessons: Seq<Lesson>)
    requires
        !carries_values(method),
        !(method is PerHoriz),
    ensures
        after(method, n_models, horizon, lessons).carried == start(method, n_models, horizon).carried,
        after(method, n_models, horizon, lessons).steps == start(method, n_models, horizon).steps,
    decreases lessons.len(),
{
    if lessons.len() > 0 {
        law_lessons_are_counted(method, n_models, horizon, lessons.drop_last());
        law_nothing_carried(method, n_models, horizon, lessons.drop_last());
    }
}

/// Everything carried starts as one.
pub proof fn law_starts_even(method: Method, n_models: nat, horizon: nat, j: int, t: int)
    requires
        0 <= j < n_models,
    ensures
        start(method, n_models, horizon).method == method,
        start(method, n_models, horizon).earlier == 0,
        start(method, n_models, horizon).carried.len() == n_models,
        start(method, n_models, horizon).steps.len() == n_models,
        start(method, n_models, horizon).steps[j].len() == horizon,
        start(method, n_models, horizon).carried[j] == 0x3ff0_0000_0000_0000,
        0 <= t < horizon ==> start(method, n_models, horizon).steps[j][t] == 0x3ff0_0000_0000_0000,
{
}

/// A strategy that learns keeps what the last window taught it, and no other keeps anything.
pub proof fn law_last_lesson_is_kept(p: ProgressView, l: Lesson)
    ensures
        p.method is Online || p.method is Adaptive || p.method is Smooth || p.method is Select || p.method is Uncertain
            ==> settled(p, l).carried == l.carried && settled(p, l).steps == p.steps,
        p.method is PerHoriz ==> settled(p, l).carried == p.carried && settled(p, l).steps == l.steps,
        p.method is Mean || p.method is Median || p.method is Weighted || p.method is Trim || p.method is Softmax
            || p.method is Geometric ==> settled(p, l).carried == p.carried && settled(p, l).steps == p.steps,
        settled(p, l).earlier == p.earlier + 1,
        settled(p, l).method == p.method,
        settled(p, l).n_models == p.n_models,
{
}

/// Which weight a model has: its fixed one, its carried one, or the inverse of its spread, and of its
/// carried error where it has no finite spread.
pub proof fn law_weights_of_rules(
    p: ProgressView,
    fixed: Seq<(ModelId, u64)>,
    combo: Seq<ModelId>,
    spreads: Seq<u32>,
    j: int,
)
    ensures
        weight_of(p, Rule::Weighted(Weights::Fixed), fixed, combo, spreads, j) == Weight::Plain(
            combine::weight_from(fixed, combo[j], 0),
        ),
        weight_of(p, Rule::Softmax, fixed, combo, spreads, j) == Weight::Plain(combine::weight_from(fixed, combo[j], 0)),
        spreads[j] % 0x8000_0000 < 0x7f80_0000 ==> weight_of(
            p,
            Rule::Weighted(Weights::Spread),
            fixed,
            combo,
            spreads,
            j,
        ) == Weight::InverseSpread(spreads[j]),
        spreads[j] % 0x8000_0000 >= 0x7f80_0000 ==> weight_of(
            p,
            Rule::Weighted(Weights::Spread),
            fixed,
            combo,
            spreads,
            j,
        ) == Weight::Inverse(p.carried[j]),
        weight_of(p, Rule::Weighted(Weights::Online), fixed, combo, spreads, j) == Weight::Plain(p.carried[j]),
        weight_of(p, Rule::Weighted(Weights::Hedge), fixed, combo, spreads, j) == Weight::Plain(p.carried[j]),
        weight_of(p, Rule::Weighted(Weights::Smooth), fixed, combo, spreads, j) == Weight::Plain(p.carried[j]),
{
    combine::law_finite_singles(spreads[j]);
}

} // verus!
