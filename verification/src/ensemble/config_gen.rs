//! Ensemble member configurations: feature permutation, class shift, categorical-value
//! permutations, row subsample and normalization method of each member.
//!
//! The random stream is read in a fixed order. The feature permutations come from a stream of
//! their own. The main stream then gives the class-shift offsets, the categorical permutations
//! of each member in turn, the row subsamples of each member in turn, and one shuffle of the
//! members. Normalization methods are assigned last, by position.

use vstd::multiset::Multiset;
use vstd::prelude::*;

use crate::ensemble::mt19937;
use crate::ensemble::mt19937::Stream;
use crate::ensemble::pyrandom;
use crate::ensemble::pyrandom::PyRandom;
use crate::ensemble::rejection;
use crate::text;

verus! {

/// How a member's numeric features are normalized.
#[derive(Clone, Copy, Debug, PartialEq, Eq, Hash, Structural)]
pub enum NormMethod {
    Identity,
    Power,
    Quantile,
    QuantileRtdl,
    Robust,
}

/// The name of no normalization method.
#[derive(Debug)]
pub struct UnknownNormMethod {
    pub name: String,
}

impl UnknownNormMethod {
    /// The error as a message.
    pub fn message(&self) -> (r: String)
        ensures
            r@ == "unknown norm_method: "@ + self.name@,
    {
        text::join2("unknown norm_method: ", self.name.as_str())
    }
}

impl NormMethod {
    /// The name of a method.
    pub open spec fn name(self) -> Seq<char> {
        match self {
            NormMethod::Identity => "none"@,
            NormMethod::Power => "power"@,
            NormMethod::Quantile => "quantile"@,
            NormMethod::QuantileRtdl => "quantile_rtdl"@,
            NormMethod::Robust => "robust"@,
        }
    }

    /// The method of the given name.
    pub fn parse(s: &str) -> (r: Result<Self, UnknownNormMethod>)
        ensures
            match r {
                Ok(m) => m.name() == s@,
                Err(e) => e.name@ == s@ && forall|m: NormMethod| #[trigger] m.name() != s@,
            },
    {
        if text::same(s, "none") {
            Ok(NormMethod::Identity)
        } else if text::same(s, "power") {
            Ok(NormMethod::Power)
        } else if text::same(s, "quantile") {
            Ok(NormMethod::Quantile)
        } else if text::same(s, "quantile_rtdl") {
            Ok(NormMethod::QuantileRtdl)
        } else if text::same(s, "robust") {
            Ok(NormMethod::Robust)
        } else {
            Err(UnknownNormMethod { name: s.to_owned() })
        }
    }
}

/// Different methods have different names.
pub proof fn law_norm_method_names_differ(a: NormMethod, b: NormMethod)
    requires
        a.name() == b.name(),
    ensures
        a == b,
{
    reveal_strlit("none");
    reveal_strlit("power");
    reveal_strlit("quantile");
    reveal_strlit("quantile_rtdl");
    reveal_strlit("robust");
    assert("none"@[0] == 'n');
    assert("power"@[0] == 'p');
    assert("quantile"@[0] == 'q');
    assert("quantile_rtdl"@[0] == 'q');
    assert("robust"@[0] == 'r');
    assert("quantile"@.len() == 8);
    assert("quantile_rtdl"@.len() == 13);
}

/// One ensemble member.
pub struct MemberConfig {
    /// Permutation of `0..n_features`.
    pub feature_permutation: Vec<usize>,
    /// Amount added, modulo the number of classes, to every training label that this member
    /// sees. Zero for regression and where class shifts are off or cannot apply.
    pub class_shift: usize,
    /// For each categorical column a permutation of its codes, where these are permuted.
    pub cat_permutation: Option<Vec<Vec<usize>>>,
    /// The training rows this member sees, where rows are subsampled; otherwise it sees all.
    pub row_subsample: Option<Vec<usize>>,
    pub norm_method: NormMethod,
}

/// What an ensemble is generated from.
pub struct EnsembleConfigParams {
    pub n_estimators: usize,
    pub n_features: usize,
    pub n_train_rows: usize,
    pub is_classification: bool,
    pub n_classes: usize,
    pub class_shift: bool,
    pub permute_categorical: bool,
    /// Number of distinct values of each categorical column.
    pub cat_value_counts: Vec<usize>,
    pub max_num_rows: Option<usize>,
    pub norm_methods: Vec<NormMethod>,
    pub random_state: u64,
}

/// What a member does, apart from its normalization method.
pub struct Pattern {
    pub feature_permutation: Seq<usize>,
    pub class_shift: usize,
    pub cat_permutation: Option<Seq<Seq<usize>>>,
    pub row_subsample: Option<Seq<usize>>,
}

/// A table of indices as a sequence of sequences.
pub open spec fn rows_of(t: Seq<Vec<usize>>) -> Seq<Seq<usize>> {
    t.map_values(|v: Vec<usize>| v@)
}

impl MemberConfig {
    /// The member apart from its normalization method.
    pub open spec fn pattern(&self) -> Pattern {
        Pattern {
            feature_permutation: self.feature_permutation@,
            class_shift: self.class_shift,
            cat_permutation: match self.cat_permutation {
                Some(t) => Some(rows_of(t@)),
                None => None,
            },
            row_subsample: match self.row_subsample {
                Some(v) => Some(v@),
                None => None,
            },
        }
    }
}

/// The permutations of the entries of `items` from position `k` on, in the order in which
/// exchanging position `k` with each later one in turn produces them.
pub open spec fn permutations_from(items: Seq<usize>, k: nat) -> Seq<Seq<usize>>
    decreases items.len() - k, 1nat, 0nat,
{
    if k >= items.len() {
        seq![items]
    } else {
        branches(items, k, (items.len() - k) as nat)
    }
}

/// The permutations that the first `m` exchanges at position `k` produce.
pub open spec fn branches(items: Seq<usize>, k: nat, m: nat) -> Seq<Seq<usize>>
    decreases items.len() - k, 0nat, m,
{
    if m == 0 || k + m > items.len() {
        Seq::empty()
    } else {
        branches(items, k, (m - 1) as nat) + permutations_from(
            pyrandom::swapped(items, k as int, k + m - 1),
            k + 1,
        )
    }
}

/// The product `1 * 2 * .. * n`.
pub open spec fn factorial(n: nat) -> nat
    decreases n,
{
    if n == 0 {
        1
    } else {
        n * factorial((n - 1) as nat)
    }
}

/// Whether `p` holds each of `0..n` exactly once.
pub open spec fn is_permutation(p: Seq<usize>, n: nat) -> bool {
    &&& p.len() == n
    &&& p.no_duplicates()
    &&& forall|i: int| 0 <= i < p.len() ==> #[trigger] p[i] < n
}

/// The stream that an integer seed starts.
pub open spec fn stream_of(seed: u64) -> Stream {
    mt19937::fresh_stream(mt19937::seeded_block(mt19937::seed_words(seed)))
}

/// `count` samples of `k` of the integers below `n`, one after the other.
pub open spec fn samples(s: Stream, n: nat, k: nat, count: nat) -> (Seq<Seq<usize>>, Stream)
    decreases count,
{
    if count == 0 {
        (Seq::empty(), s)
    } else {
        let (head, s1) = samples(s, n, k, (count - 1) as nat);
        let (x, s2) = pyrandom::sample_of(s1, n, k);
        (head.push(x), s2)
    }
}

/// The feature permutations: with up to five features a sample of all permutations, otherwise
/// a full sample of the features for each member.
pub open spec fn feature_permutations(n_features: nat, n_estimators: nat, seed: u64) -> Seq<Seq<usize>> {
    if n_features <= 5 {
        let all = permutations_from(pyrandom::index_range(n_features), 0);
        let k = if n_estimators < all.len() { n_estimators } else { all.len() };
        let picked = pyrandom::sample_of(stream_of(seed), all.len(), k).0;
        Seq::new(k, |i: int| all[picked[i] as int])
    } else {
        samples(stream_of(seed), n_features, n_features, n_estimators).0
    }
}

/// Whether members get class shifts.
pub open spec fn shifts_classes(p: &EnsembleConfigParams) -> bool {
    p.is_classification && p.class_shift && p.n_estimators > 1 && p.n_classes > 1
}

/// The class shifts: the classes in random order, repeated as often as needed.
pub open spec fn class_shifts(s: Stream, p: &EnsembleConfigParams) -> (Seq<usize>, Stream) {
    if shifts_classes(p) {
        let (base, s1) = pyrandom::sample_of(s, p.n_classes as nat, p.n_classes as nat);
        (Seq::new(p.n_estimators as nat, |i: int| base[i % (p.n_classes as int)]), s1)
    } else {
        (Seq::new(p.n_estimators as nat, |i: int| 0usize), s)
    }
}

/// One permutation for each of the first `m` value counts.
pub open spec fn value_permutations(s: Stream, counts: Seq<usize>, m: nat) -> (Seq<Seq<usize>>, Stream)
    decreases m,
{
    if m == 0 {
        (Seq::empty(), s)
    } else {
        let (head, s1) = value_permutations(s, counts, (m - 1) as nat);
        let (x, s2) = pyrandom::sample_of(s1, counts[m - 1] as nat, counts[m - 1] as nat);
        (head.push(x), s2)
    }
}

/// The categorical permutations of `count` members.
pub open spec fn categorical_permutations(s: Stream, counts: Seq<usize>, count: nat) -> (
    Seq<Seq<Seq<usize>>>,
    Stream,
)
    decreases count,
{
    if count == 0 {
        (Seq::empty(), s)
    } else {
        let (head, s1) = categorical_permutations(s, counts, (count - 1) as nat);
        let (x, s2) = value_permutations(s1, counts, counts.len());
        (head.push(x), s2)
    }
}

/// Whether members get categorical permutations.
pub open spec fn permutes_values(p: &EnsembleConfigParams) -> bool {
    p.permute_categorical && p.cat_value_counts@.len() > 0
}

/// The categorical permutations, where members get them.
pub open spec fn member_categorical(s: Stream, p: &EnsembleConfigParams) -> (
    Seq<Option<Seq<Seq<usize>>>>,
    Stream,
) {
    if permutes_values(p) {
        let (all, s1) = categorical_permutations(s, p.cat_value_counts@, p.n_estimators as nat);
        (Seq::new(p.n_estimators as nat, |i: int| Some(all[i])), s1)
    } else {
        (Seq::new(p.n_estimators as nat, |i: int| None), s)
    }
}

/// How many rows a member sees.
pub open spec fn rows_per_member(p: &EnsembleConfigParams) -> nat {
    match p.max_num_rows {
        Some(m) => if m < p.n_train_rows {
            m as nat
        } else {
            p.n_train_rows as nat
        },
        None => p.n_train_rows as nat,
    }
}

/// The row subsamples, where rows are subsampled.
pub open spec fn member_rows(s: Stream, p: &EnsembleConfigParams) -> (Seq<Option<Seq<usize>>>, Stream) {
    if rows_per_member(p) < p.n_train_rows {
        let (all, s1) = samples(s, p.n_train_rows as nat, rows_per_member(p), p.n_estimators as nat);
        (Seq::new(p.n_estimators as nat, |i: int| Some(all[i])), s1)
    } else {
        (Seq::new(p.n_estimators as nat, |i: int| None), s)
    }
}

/// The members' patterns before they are shuffled, and the stream that is left: as many as
/// there are feature permutations, at most `n_estimators`.
pub open spec fn patterns(p: &EnsembleConfigParams) -> (Seq<Pattern>, Stream) {
    let features = feature_permutations(p.n_features as nat, p.n_estimators as nat, p.random_state);
    let (shifts, s1) = class_shifts(stream_of(p.random_state), p);
    let (values, s2) = member_categorical(s1, p);
    let (rows, s3) = member_rows(s2, p);
    let n = if features.len() < p.n_estimators { features.len() } else { p.n_estimators as nat };
    (
        Seq::new(
            n,
            |i: int|
                Pattern {
                    feature_permutation: features[i],
                    class_shift: shifts[i],
                    cat_permutation: values[i],
                    row_subsample: rows[i],
                },
        ),
        s3,
    )
}

/// The members' patterns in their final order.
pub open spec fn ensemble_patterns(p: &EnsembleConfigParams) -> Seq<Pattern> {
    let (unordered, s) = patterns(p);
    pyrandom::shuffle_of(s, unordered).0
}

proof fn lemma_swap_keeps_permutation(items: Seq<usize>, n: nat, i: int, j: int)
    requires
        is_permutation(items, n),
        0 <= i < n,
        0 <= j < n,
    ensures
        is_permutation(pyrandom::swapped(items, i, j), n),
{
}

/// Every enumerated permutation is one, agrees with `items` before position `k`, and takes
/// position `k` from the exchanged ones; no two are equal.
proof fn lemma_branches(items: Seq<usize>, k: nat, m: nat, n: nat)
    requires
        is_permutation(items, n),
        k < n,
        k + m <= n,
    ensures
        branches(items, k, m).len() == m * factorial((n - k - 1) as nat),
        forall|q: int|
            0 <= q < branches(items, k, m).len() ==> {
                let x = #[trigger] branches(items, k, m)[q];
                &&& is_permutation(x, n)
                &&& forall|i: int| 0 <= i < k ==> x[i] == items[i]
                &&& exists|r: int| k <= r < k + m && x[k as int] == items[r]
            },
        branches(items, k, m).no_duplicates(),
    decreases n - k, 0nat, m,
{
    if m > 0 {
        let head = branches(items, k, (m - 1) as nat);
        let next = pyrandom::swapped(items, k as int, k + m - 1);
        let tail = permutations_from(next, k + 1);
        lemma_branches(items, k, (m - 1) as nat, n);
        lemma_swap_keeps_permutation(items, n, k as int, k + m - 1);
        lemma_permutations_from(next, k + 1, n);
        assert(m * factorial((n - k - 1) as nat) == (m - 1) * factorial((n - k - 1) as nat) + factorial(
            (n - k - 1) as nat,
        )) by (nonlinear_arith);
        let all = branches(items, k, m);
        assert(all == head + tail);
        assert forall|q: int| 0 <= q < all.len() implies {
            let x = #[trigger] all[q];
            &&& is_permutation(x, n)
            &&& forall|i: int| 0 <= i < k ==> x[i] == items[i]
            &&& exists|r: int| k <= r < k + m && x[k as int] == items[r]
        } by {
            if q < head.len() {
                assert(all[q] == head[q]);
                let r = choose|r: int| k <= r < k + m - 1 && head[q][k as int] == items[r];
                assert(all[q][k as int] == items[r]);
            } else {
                assert(all[q] == tail[q - head.len()]);
                assert(tail[q - head.len()][k as int] == next[k as int]);
                assert(all[q][k as int] == items[k + m - 1]);
            }
        }
        assert forall|a: int, b: int| 0 <= a < b < all.len() implies all[a] != all[b] by {
            if b < head.len() {
                assert(all[a] == head[a] && all[b] == head[b]);
            } else if a >= head.len() {
                assert(all[a] == tail[a - head.len()] && all[b] == tail[b - head.len()]);
            } else {
                assert(all[a] == head[a] && all[b] == tail[b - head.len()]);
                let r = choose|r: int| k <= r < k + m - 1 && head[a][k as int] == items[r];
                assert(tail[b - head.len()][k as int] == next[k as int]);
                assert(items[r] != items[k + m - 1]);
            }
        }
    }
}

/// There are `(n - k)!` permutations of the entries from position `k` on; each one is
/// enumerated once.
proof fn lemma_permutations_from(items: Seq<usize>, k: nat, n: nat)
    requires
        is_permutation(items, n),
        k <= n,
    ensures
        permutations_from(items, k).len() == factorial((n - k) as nat),
        forall|q: int|
            0 <= q < permutations_from(items, k).len() ==> {
                let x = #[trigger] permutations_from(items, k)[q];
                &&& is_permutation(x, n)
                &&& forall|i: int| 0 <= i < k ==> x[i] == items[i]
            },
        permutations_from(items, k).no_duplicates(),
    decreases n - k, 1nat, 0nat,
{
    if k < n {
        lemma_branches(items, k, (n - k) as nat, n);
    }
}

/// The enumeration lists `n!` permutations of `0..n`, no two equal.
pub proof fn law_permutations_enumerated(n: nat)
    requires
        n <= usize::MAX,
    ensures
        permutations_from(pyrandom::index_range(n), 0).len() == factorial(n),
        forall|q: int|
            0 <= q < permutations_from(pyrandom::index_range(n), 0).len() ==> is_permutation(
                #[trigger] permutations_from(pyrandom::index_range(n), 0)[q],
                n,
            ),
        permutations_from(pyrandom::index_range(n), 0).no_duplicates(),
{
    assert(is_permutation(pyrandom::index_range(n), n));
    lemma_permutations_from(pyrandom::index_range(n), 0, n);
}

/// Appends the permutations of the entries of `items` from position `k` on to `out`.
fn permute_rec(items: &mut Vec<usize>, k: usize, out: &mut Vec<Vec<usize>>)
    requires
        k <= old(items)@.len(),
    ensures
        final(items)@ == old(items)@,
        rows_of(final(out)@) == rows_of(old(out)@) + permutations_from(old(items)@, k as nat),
    decreases old(items)@.len() - k,
{
    let n: usize = items.len();
    if k == n {
        let copy = items.clone();
        assert(copy@ =~= items@);
        out.push(copy);
        assert(rows_of(out@) =~= rows_of(old(out)@) + permutations_from(old(items)@, k as nat));
        return;
    }
    let mut i: usize = k;
    assert(rows_of(out@) =~= rows_of(old(out)@) + branches(items@, k as nat, 0));
    while i < n
        invariant
            k <= i <= n == items@.len(),
            k < n,
            items@ == old(items)@,
            rows_of(out@) == rows_of(old(out)@) + branches(items@, k as nat, (i - k) as nat),
        decreases n - i,
    {
        let ghost before = rows_of(out@);
        let a: usize = items[k];
        let b: usize = items[i];
        items.set(k, b);
        items.set(i, a);
        assert(items@ =~= pyrandom::swapped(old(items)@, k as int, i as int));
        permute_rec(items, k + 1, out);
        items.set(k, a);
        items.set(i, b);
        assert(items@ =~= old(items)@);
        i += 1;
        assert(rows_of(out@) =~= rows_of(old(out)@) + branches(items@, k as nat, (i - k) as nat));
    }
}

/// All permutations of `0..n`.
fn permutations(n: usize) -> (r: Vec<Vec<usize>>)
    ensures
        rows_of(r@) == permutations_from(pyrandom::index_range(n as nat), 0),
{
    let mut items: Vec<usize> = Vec::new();
    let mut fill: usize = 0;
    while fill < n
        invariant
            fill <= n,
            items@ == pyrandom::index_range(fill as nat),
        decreases n - fill,
    {
        items.push(fill);
        fill += 1;
        assert(items@ =~= pyrandom::index_range(fill as nat));
    }
    let mut out: Vec<Vec<usize>> = Vec::new();
    permute_rec(&mut items, 0, &mut out);
    assert(rows_of(out@) =~= permutations_from(pyrandom::index_range(n as nat), 0));
    out
}

/// `count` samples of `k` of the integers below `n`.
fn draw_samples(rng: &mut PyRandom, n: usize, k: usize, count: usize) -> (r: Vec<Vec<usize>>)
    requires
        k <= n,
    ensures
        (rows_of(r@), final(rng).stream()) == samples(old(rng).stream(), n as nat, k as nat, count as nat),
        r@.len() == count,
        forall|i: int| 0 <= i < count ==> is_sample(#[trigger] r@[i]@, n as nat, k as nat),
{
    let mut out: Vec<Vec<usize>> = Vec::new();
    let mut i: usize = 0;
    assert(rows_of(out@) =~= Seq::<Seq<usize>>::empty());
    while i < count
        invariant
            i <= count,
            k <= n,
            out@.len() == i,
            (rows_of(out@), rng.stream()) == samples(old(rng).stream(), n as nat, k as nat, i as nat),
            forall|q: int| 0 <= q < i ==> is_sample(#[trigger] out@[q]@, n as nat, k as nat),
        decreases count - i,
    {
        let ghost before = rows_of(out@);
        let x: Vec<usize> = rng.sample_indices(n, k);
        out.push(x);
        i += 1;
        assert(rows_of(out@) =~= before.push(x@));
    }
    out
}

/// Whether `x` holds `k` distinct integers below `n`.
pub open spec fn is_sample(x: Seq<usize>, n: nat, k: nat) -> bool {
    &&& x.len() == k
    &&& x.no_duplicates()
    &&& forall|i: int| 0 <= i < x.len() ==> #[trigger] x[i] < n
}

/// The feature permutations, from a stream of their own.
fn generate_feature_permutations(n_features: usize, n_estimators: usize, random_state: u64) -> (r: Vec<
    Vec<usize>,
>)
    ensures
        rows_of(r@) == feature_permutations(n_features as nat, n_estimators as nat, random_state),
        r@.len() <= n_estimators,
        n_features > 5 ==> r@.len() == n_estimators,
        n_features <= 5 && n_estimators >= factorial(n_features as nat) ==> r@.len() == factorial(
            n_features as nat,
        ),
        n_features <= 5 && n_estimators < factorial(n_features as nat) ==> r@.len() == n_estimators,
        forall|i: int| 0 <= i < r@.len() ==> is_permutation(#[trigger] r@[i]@, n_features as nat),
{
    let mut rng = PyRandom::new(random_state);
    if n_features <= 5 {
        let all: Vec<Vec<usize>> = permutations(n_features);
        proof {
            law_permutations_enumerated(n_features as nat);
        }
        let ghost listed = permutations_from(pyrandom::index_range(n_features as nat), 0);
        assert(all@.len() == listed.len());
        let k: usize = if n_estimators < all.len() { n_estimators } else { all.len() };
        let picked: Vec<Vec<usize>> = rng.sample(all.as_slice(), k);
        let ghost drawn = pyrandom::sample_of(stream_of(random_state), all@.len(), k as nat).0;
        assert forall|i: int| 0 <= i < k implies #[trigger] picked@[i]@ == listed[drawn[i] as int] by {
            let from = all@[drawn[i] as int];
            assert(cloned::<Vec<usize>>(from, picked@[i]));
            assert(picked@[i]@ =~= from@);
            assert(rows_of(all@)[drawn[i] as int] == from@);
        }
        assert(rows_of(picked@) =~= feature_permutations(
            n_features as nat,
            n_estimators as nat,
            random_state,
        ));
        picked
    } else {
        draw_samples(&mut rng, n_features, n_features, n_estimators)
    }
}

/// The class shifts of the members.
fn generate_class_shifts(rng: &mut PyRandom, p: &EnsembleConfigParams) -> (r: Vec<usize>)
    ensures
        (r@, final(rng).stream()) == class_shifts(old(rng).stream(), p),
        r@.len() == p.n_estimators,
        forall|i: int| 0 <= i < r@.len() ==> (if shifts_classes(p) { #[trigger] r@[i] < p.n_classes } else { r@[i]
            == 0 }),
{
    let mut out: Vec<usize> = Vec::new();
    let mut i: usize = 0;
    if p.is_classification && p.class_shift && p.n_estimators > 1 && p.n_classes > 1 {
        let base: Vec<usize> = rng.sample_indices(p.n_classes, p.n_classes);
        while i < p.n_estimators
            invariant
                i <= p.n_estimators,
                p.n_classes > 1,
                base@.len() == p.n_classes,
                forall|q: int| 0 <= q < base@.len() ==> base@[q] < p.n_classes,
                out@.len() == i,
                forall|q: int| 0 <= q < i ==> #[trigger] out@[q] == base@[q % (p.n_classes as int)],
                forall|q: int| 0 <= q < i ==> #[trigger] out@[q] < p.n_classes,
            decreases p.n_estimators - i,
        {
            out.push(base[i % p.n_classes]);
            i += 1;
        }
    } else {
        while i < p.n_estimators
            invariant
                i <= p.n_estimators,
                out@.len() == i,
                forall|q: int| 0 <= q < i ==> #[trigger] out@[q] == 0,
            decreases p.n_estimators - i,
        {
            out.push(0);
            i += 1;
        }
    }
    assert(out@ =~= class_shifts(old(rng).stream(), p).0);
    out
}

/// One permutation for each value count.
fn generate_value_permutations(rng: &mut PyRandom, counts: &Vec<usize>) -> (r: Vec<Vec<usize>>)
    ensures
        (rows_of(r@), final(rng).stream()) == value_permutations(
            old(rng).stream(),
            counts@,
            counts@.len(),
        ),
        are_permutations(rows_of(r@), counts@),
{
    let mut out: Vec<Vec<usize>> = Vec::new();
    let mut i: usize = 0;
    assert(rows_of(out@) =~= Seq::<Seq<usize>>::empty());
    while i < counts.len()
        invariant
            i <= counts@.len(),
            out@.len() == i,
            (rows_of(out@), rng.stream()) == value_permutations(old(rng).stream(), counts@, i as nat),
            forall|q: int| 0 <= q < i ==> is_permutation(#[trigger] rows_of(out@)[q], counts@[q] as nat),
        decreases counts@.len() - i,
    {
        let ghost before = rows_of(out@);
        let x: Vec<usize> = rng.sample_indices(counts[i], counts[i]);
        out.push(x);
        i += 1;
        assert(rows_of(out@) =~= before.push(x@));
    }
    out
}

/// Whether row `i` of `t` is a permutation of `0..counts[i]`, for each `i`.
pub open spec fn are_permutations(t: Seq<Seq<usize>>, counts: Seq<usize>) -> bool {
    &&& t.len() == counts.len()
    &&& forall|i: int| 0 <= i < t.len() ==> is_permutation(#[trigger] t[i], counts[i] as nat)
}

/// The pattern of optional rows.
pub open spec fn optional_rows(o: Option<Vec<usize>>) -> Option<Seq<usize>> {
    match o {
        Some(v) => Some(v@),
        None => None,
    }
}

/// The pattern of an optional table.
pub open spec fn optional_table(o: Option<Vec<Vec<usize>>>) -> Option<Seq<Seq<usize>>> {
    match o {
        Some(t) => Some(rows_of(t@)),
        None => None,
    }
}

/// What every member's pattern satisfies.
pub open spec fn pattern_valid(x: Pattern, p: &EnsembleConfigParams) -> bool {
    &&& is_permutation(x.feature_permutation, p.n_features as nat)
    &&& if shifts_classes(p) {
        x.class_shift < p.n_classes
    } else {
        x.class_shift == 0
    }
    &&& match x.cat_permutation {
        Some(t) => permutes_values(p) && are_permutations(t, p.cat_value_counts@),
        None => !permutes_values(p),
    }
    &&& match x.row_subsample {
        Some(v) => rows_per_member(p) < p.n_train_rows && is_sample(
            v,
            p.n_train_rows as nat,
            rows_per_member(p),
        ),
        None => rows_per_member(p) == p.n_train_rows,
    }
}

/// How many members an ensemble has: `n_estimators`, but with up to five features at most one
/// for each feature permutation.
pub open spec fn member_count(p: &EnsembleConfigParams) -> nat {
    if p.n_features <= 5 && factorial(p.n_features as nat) < p.n_estimators {
        factorial(p.n_features as nat)
    } else {
        p.n_estimators as nat
    }
}

/// The categorical permutations of the members, where they get them.
fn generate_categorical(rng: &mut PyRandom, p: &EnsembleConfigParams) -> (r: Vec<Option<Vec<Vec<usize>>>>)
    ensures
        r@.len() == p.n_estimators,
        (
            r@.map_values(|o: Option<Vec<Vec<usize>>>| optional_table(o)),
            final(rng).stream(),
        ) == member_categorical(old(rng).stream(), p),
        forall|i: int|
            0 <= i < r@.len() ==> match optional_table(#[trigger] r@[i]) {
                Some(t) => permutes_values(p) && are_permutations(t, p.cat_value_counts@),
                None => !permutes_values(p),
            },
{
    let mut out: Vec<Option<Vec<Vec<usize>>>> = Vec::new();
    let mut i: usize = 0;
    if p.permute_categorical && p.cat_value_counts.len() > 0 {
        let ghost s = rng.stream();
        while i < p.n_estimators
            invariant
                i <= p.n_estimators,
                out@.len() == i,
                s == old(rng).stream(),
                rng.stream() == categorical_permutations(s, p.cat_value_counts@, i as nat).1,
                categorical_permutations(s, p.cat_value_counts@, i as nat).0.len() == i,
                forall|q: int|
                    0 <= q < i ==> optional_table(#[trigger] out@[q]) == Some(
                        categorical_permutations(s, p.cat_value_counts@, i as nat).0[q],
                    ),
                forall|q: int|
                    0 <= q < i ==> are_permutations(
                        optional_table(#[trigger] out@[q])->0,
                        p.cat_value_counts@,
                    ),
            decreases p.n_estimators - i,
        {
            let ghost before = out@;
            let t: Vec<Vec<usize>> = generate_value_permutations(rng, &p.cat_value_counts);
            out.push(Some(t));
            i += 1;
            assert forall|q: int| 0 <= q < i implies optional_table(#[trigger] out@[q]) == Some(
                categorical_permutations(s, p.cat_value_counts@, i as nat).0[q],
            ) by {
                if q < i - 1 {
                    assert(out@[q] == before[q]);
                }
            }
        }
    } else {
        while i < p.n_estimators
            invariant
                i <= p.n_estimators,
                out@.len() == i,
                forall|q: int| 0 <= q < i ==> #[trigger] out@[q] is None,
            decreases p.n_estimators - i,
        {
            out.push(None);
            i += 1;
        }
    }
    assert(out@.map_values(|o: Option<Vec<Vec<usize>>>| optional_table(o)) =~= member_categorical(
        old(rng).stream(),
        p,
    ).0);
    out
}

/// The row subsamples of the members, where rows are subsampled.
fn generate_rows(rng: &mut PyRandom, p: &EnsembleConfigParams) -> (r: Vec<Option<Vec<usize>>>)
    ensures
        r@.len() == p.n_estimators,
        (r@.map_values(|o: Option<Vec<usize>>| optional_rows(o)), final(rng).stream()) == member_rows(
            old(rng).stream(),
            p,
        ),
        forall|i: int|
            0 <= i < r@.len() ==> match optional_rows(#[trigger] r@[i]) {
                Some(v) => rows_per_member(p) < p.n_train_rows && is_sample(
                    v,
                    p.n_train_rows as nat,
                    rows_per_member(p),
                ),
                None => rows_per_member(p) == p.n_train_rows,
            },
{
    let target: usize = match p.max_num_rows {
        Some(m) => if m < p.n_train_rows {
            m
        } else {
            p.n_train_rows
        },
        None => p.n_train_rows,
    };
    let mut out: Vec<Option<Vec<usize>>> = Vec::new();
    let mut i: usize = 0;
    if target < p.n_train_rows {
        let ghost s = rng.stream();
        while i < p.n_estimators
            invariant
                i <= p.n_estimators,
                target < p.n_train_rows,
                out@.len() == i,
                s == old(rng).stream(),
                rng.stream() == samples(s, p.n_train_rows as nat, target as nat, i as nat).1,
                samples(s, p.n_train_rows as nat, target as nat, i as nat).0.len() == i,
                forall|q: int|
                    0 <= q < i ==> optional_rows(#[trigger] out@[q]) == Some(
                        samples(s, p.n_train_rows as nat, target as nat, i as nat).0[q],
                    ),
                forall|q: int|
                    0 <= q < i ==> is_sample(
                        optional_rows(#[trigger] out@[q])->0,
                        p.n_train_rows as nat,
                        target as nat,
                    ),
            decreases p.n_estimators - i,
        {
            let ghost before = out@;
            let x: Vec<usize> = rng.sample_indices(p.n_train_rows, target);
            out.push(Some(x));
            i += 1;
            assert forall|q: int| 0 <= q < i implies optional_rows(#[trigger] out@[q]) == Some(
                samples(s, p.n_train_rows as nat, target as nat, i as nat).0[q],
            ) by {
                if q < i - 1 {
                    assert(out@[q] == before[q]);
                }
            }
        }
    } else {
        while i < p.n_estimators
            invariant
                i <= p.n_estimators,
                out@.len() == i,
                forall|q: int| 0 <= q < i ==> #[trigger] out@[q] is None,
            decreases p.n_estimators - i,
        {
            out.push(None);
            i += 1;
        }
    }
    assert(out@.map_values(|o: Option<Vec<usize>>| optional_rows(o)) =~= member_rows(old(rng).stream(), p).0);
    out
}

/// Generates the members of an ensemble.
pub fn generate_ensemble(p: &EnsembleConfigParams) -> (r: Vec<MemberConfig>)
    requires
        p.norm_methods@.len() > 0,
    ensures
        r@.len() == member_count(p),
        r@.map_values(|c: MemberConfig| c.pattern()) == ensemble_patterns(p),
        forall|i: int|
            0 <= i < r@.len() ==> (#[trigger] r@[i]).norm_method == p.norm_methods@[i
                % (p.norm_methods@.len() as int)],
        forall|i: int| 0 <= i < r@.len() ==> pattern_valid((#[trigger] r@[i]).pattern(), p),
{
    let mut features: Vec<Vec<usize>> = generate_feature_permutations(
        p.n_features,
        p.n_estimators,
        p.random_state,
    );
    let ghost features0 = features@;
    let mut rng = PyRandom::new(p.random_state);
    let shifts: Vec<usize> = generate_class_shifts(&mut rng, p);
    let mut values: Vec<Option<Vec<Vec<usize>>>> = generate_categorical(&mut rng, p);
    let ghost values0 = values@;
    let mut rows: Vec<Option<Vec<usize>>> = generate_rows(&mut rng, p);
    let ghost rows0 = rows@;
    let ghost f = |c: MemberConfig| c.pattern();
    let n: usize = features.len();
    assert(n == member_count(p));
    let mut members: Vec<MemberConfig> = Vec::new();
    let mut i: usize = 0;
    while i < n
        invariant
            i <= n == features@.len() == features0.len(),
            n <= p.n_estimators,
            shifts@.len() == p.n_estimators,
            values@.len() == values0.len() == p.n_estimators,
            rows@.len() == rows0.len() == p.n_estimators,
            members@.len() == i,
            forall|q: int| i <= q < n ==> features@[q] == features0[q],
            forall|q: int| i <= q < n ==> values@[q] == values0[q],
            forall|q: int| i <= q < n ==> rows@[q] == rows0[q],
            forall|q: int|
                0 <= q < i ==> (#[trigger] members@[q]).pattern() == (Pattern {
                    feature_permutation: features0[q]@,
                    class_shift: shifts@[q],
                    cat_permutation: optional_table(values0[q]),
                    row_subsample: optional_rows(rows0[q]),
                }),
        decreases n - i,
    {
        let mut feature_permutation: Vec<usize> = Vec::new();
        std::mem::swap(&mut feature_permutation, &mut features[i]);
        let mut cat_permutation: Option<Vec<Vec<usize>>> = None;
        std::mem::swap(&mut cat_permutation, &mut values[i]);
        let mut row_subsample: Option<Vec<usize>> = None;
        std::mem::swap(&mut row_subsample, &mut rows[i]);
        members.push(
            MemberConfig {
                feature_permutation,
                class_shift: shifts[i],
                cat_permutation,
                row_subsample,
                norm_method: NormMethod::Identity,
            },
        );
        i += 1;
    }
    proof {
        assert(rows_of(features0) == feature_permutations(
            p.n_features as nat,
            p.n_estimators as nat,
            p.random_state,
        ));
        assert forall|q: int| 0 <= q < n implies #[trigger] members@.map_values(f)[q] == patterns(p).0[q] by {
            assert(rows_of(features0)[q] == features0[q]@);
            assert(values0.map_values(|o: Option<Vec<Vec<usize>>>| optional_table(o))[q] == optional_table(
                values0[q],
            ));
            assert(rows0.map_values(|o: Option<Vec<usize>>| optional_rows(o))[q] == optional_rows(rows0[q]));
            assert(f(members@[q]) == members@[q].pattern());
        }
        assert(members@.map_values(f) =~= patterns(p).0);
        assert forall|q: int| 0 <= q < n implies pattern_valid((#[trigger] members@[q]).pattern(), p) by {
            assert(is_permutation(features0[q]@, p.n_features as nat));
            assert(optional_table(values0[q]) == members@[q].pattern().cat_permutation);
            assert(optional_rows(rows0[q]) == members@[q].pattern().row_subsample);
        }
        rng.lemma_stream_is_output();
        pyrandom::lemma_shuffle_map(rng.stream(), members@, f);
    }
    let ghost unordered = members@;
    rng.shuffle(members.as_mut_slice());
    proof {
        assert forall|q: int| 0 <= q < members@.len() implies pattern_valid(
            (#[trigger] members@[q]).pattern(),
            p,
        ) by {
            lemma_from_multiset(unordered, members@, q);
        }
    }
    let ghost ordered = members@;
    assert(ordered.map_values(f) == ensemble_patterns(p));
    assert(ordered.len() == n) by {
        vstd::seq_lib::to_multiset_len(unordered);
        vstd::seq_lib::to_multiset_len(ordered);
    }
    let methods: usize = p.norm_methods.len();
    i = 0;
    while i < n
        invariant
            i <= n == members@.len() == ordered.len(),
            methods == p.norm_methods@.len() > 0,
            forall|q: int| 0 <= q < n ==> (#[trigger] members@[q]).pattern() == ordered[q].pattern(),
            forall|q: int|
                0 <= q < i ==> (#[trigger] members@[q]).norm_method == p.norm_methods@[q % (methods as int)],
        decreases n - i,
    {
        members[i].norm_method = p.norm_methods[i % methods];
        i += 1;
    }
    assert(members@.map_values(f) =~= ordered.map_values(f));
    members
}

/// An element of `y` is one of `x`, where both hold the same elements.
proof fn lemma_from_multiset<T>(x: Seq<T>, y: Seq<T>, q: int)
    requires
        x.to_multiset() == y.to_multiset(),
        0 <= q < y.len(),
    ensures
        exists|a: int| 0 <= a < x.len() && #[trigger] x[a] == y[q],
{
    broadcast use vstd::seq_lib::group_to_multiset_ensures;

    assert(y.contains(y[q]));
    assert(y.to_multiset().count(y[q]) > 0);
    assert(x.contains(y[q]));
}

proof fn lemma_samples_leave_output(s: Stream, n: nat, k: nat, count: nat)
    requires
        k <= n <= u64::MAX,
        rejection::is_output(s),
    ensures
        rejection::is_output(samples(s, n, k, count).1),
    decreases count,
{
    if count > 0 {
        lemma_samples_leave_output(s, n, k, (count - 1) as nat);
        pyrandom::lemma_sample_leaves_output(samples(s, n, k, (count - 1) as nat).1, n, k);
    }
}

proof fn lemma_values_leave_output(s: Stream, counts: Seq<usize>, m: nat)
    requires
        m <= counts.len(),
        rejection::is_output(s),
    ensures
        rejection::is_output(value_permutations(s, counts, m).1),
    decreases m,
{
    if m > 0 {
        lemma_values_leave_output(s, counts, (m - 1) as nat);
        let n = counts[m - 1] as nat;
        pyrandom::lemma_sample_leaves_output(value_permutations(s, counts, (m - 1) as nat).1, n, n);
    }
}

proof fn lemma_categorical_leaves_output(s: Stream, counts: Seq<usize>, count: nat)
    requires
        rejection::is_output(s),
    ensures
        rejection::is_output(categorical_permutations(s, counts, count).1),
    decreases count,
{
    if count > 0 {
        lemma_categorical_leaves_output(s, counts, (count - 1) as nat);
        lemma_values_leave_output(
            categorical_permutations(s, counts, (count - 1) as nat).1,
            counts,
            counts.len(),
        );
    }
}

/// What the patterns leave of the main stream is a generator's output.
proof fn lemma_patterns_leave_output(p: &EnsembleConfigParams)
    ensures
        rejection::is_output(patterns(p).1),
{
    let s = stream_of(p.random_state);
    mt19937::lemma_fresh_is_output(mt19937::seeded_block(mt19937::seed_words(p.random_state)));
    let n = p.n_classes as nat;
    pyrandom::lemma_sample_leaves_output(s, n, n);
    let s1 = class_shifts(s, p).1;
    lemma_categorical_leaves_output(s1, p.cat_value_counts@, p.n_estimators as nat);
    let s2 = member_categorical(s1, p).1;
    lemma_samples_leave_output(s2, p.n_train_rows as nat, rows_per_member(p), p.n_estimators as nat);
}

/// The feature permutations that members have, in whatever order.
pub open spec fn features_of(members: Seq<Pattern>) -> Multiset<Seq<usize>> {
    members.map_values(|x: Pattern| x.feature_permutation).to_multiset()
}

/// The features' stream is independent of the main one: the feature permutations that the members of
/// an ensemble have depend on the number of features, the number of members and the seed alone. The
/// rest of the parameters can only change their order.
pub proof fn law_features_are_independent(p: &EnsembleConfigParams, q: &EnsembleConfigParams)
    requires
        p.n_features == q.n_features,
        p.n_estimators == q.n_estimators,
        p.random_state == q.random_state,
    ensures
        features_of(ensemble_patterns(p)) == features_of(ensemble_patterns(q)),
{
    let f = |x: Pattern| x.feature_permutation;
    let (a, s) = patterns(p);
    let (b, t) = patterns(q);
    lemma_patterns_leave_output(p);
    lemma_patterns_leave_output(q);
    assert(a.map_values(f) =~= b.map_values(f));
    pyrandom::lemma_shuffle_map(s, a, f);
    pyrandom::lemma_shuffle_map(t, b, f);
    pyrandom::law_shuffle_keeps_elements(s, a.map_values(f));
    pyrandom::law_shuffle_keeps_elements(t, b.map_values(f));
}

/// What the ways of scaling are called.
pub proof fn law_norm_methods_are_called()
    ensures
        NormMethod::Identity.name() == "none"@,
        NormMethod::Power.name() == "power"@,
        NormMethod::Quantile.name() == "quantile"@,
        NormMethod::QuantileRtdl.name() == "quantile_rtdl"@,
        NormMethod::Robust.name() == "robust"@,
{
}

/// A member's class shift is zero unless classes are shifted, and the shifts repeat after as many
/// members as there are classes. Classes are shifted only in a classification with two classes and two
/// members or more, and only where that is asked for.
pub proof fn law_shifts_of_members(s: Stream, p: &EnsembleConfigParams, i: int, j: int)
    requires
        0 <= i < p.n_estimators,
        0 <= j < p.n_estimators,
    ensures
        class_shifts(s, p).0.len() == p.n_estimators,
        !p.is_classification || !p.class_shift || p.n_estimators <= 1 || p.n_classes <= 1 ==> class_shifts(s, p).0[i] == 0
            && class_shifts(s, p).1 == s,
        p.is_classification && p.class_shift && p.n_estimators > 1 && p.n_classes > 1 ==> ({
            let base = pyrandom::sample_of(s, p.n_classes as nat, p.n_classes as nat);
            &&& class_shifts(s, p).1 == base.1
            &&& i < p.n_classes ==> class_shifts(s, p).0[i] == base.0[i]
            &&& j == i + p.n_classes ==> class_shifts(s, p).0[j] == class_shifts(s, p).0[i]
        }),
{
    if p.is_classification && p.class_shift && p.n_estimators > 1 && p.n_classes > 1 {
        let n = p.n_classes as int;
        if i < n {
            vstd::arithmetic::div_mod::lemma_small_mod(i as nat, n as nat);
        }
        vstd::arithmetic::div_mod::lemma_mod_add_multiples_vanish(i, n);
    }
}

/// A member has all rows, or the greatest number where that is less; and has a sample of its own only
/// then.
pub proof fn law_rows_of_members(s: Stream, p: &EnsembleConfigParams, i: int)
    requires
        0 <= i < p.n_estimators,
    ensures
        p.max_num_rows is None ==> rows_per_member(p) == p.n_train_rows,
        p.max_num_rows matches Some(m) ==> rows_per_member(p) <= m && rows_per_member(p) <= p.n_train_rows && (
        rows_per_member(p) == m || rows_per_member(p) == p.n_train_rows),
        member_rows(s, p).0.len() == p.n_estimators,
        p.max_num_rows is None ==> member_rows(s, p).0[i] is None,
        p.max_num_rows matches Some(m) ==> (member_rows(s, p).0[i] is Some <==> m < p.n_train_rows),
        p.max_num_rows matches Some(m) ==> (m < p.n_train_rows ==> member_rows(s, p).0[i] == Some(
            samples(s, p.n_train_rows as nat, m as nat, p.n_estimators as nat).0[i],
        )),
{
}

/// Samples are drawn one after the other, each where the one before left off.
pub proof fn law_samples_follow(s: Stream, counts: Seq<usize>, n: nat, k: nat, count: nat)
    ensures
        samples(s, n, k, 0).0.len() == 0,
        samples(s, n, k, 0).1 == s,
        samples(s, n, k, count + 1).0 == samples(s, n, k, count).0.push(
            pyrandom::sample_of(samples(s, n, k, count).1, n, k).0,
        ),
        samples(s, n, k, count + 1).1 == pyrandom::sample_of(samples(s, n, k, count).1, n, k).1,
        count < counts.len() ==> ({
            let before = value_permutations(s, counts, count);
            let m = counts[count as int] as nat;
            &&& value_permutations(s, counts, count + 1).0 == before.0.push(pyrandom::sample_of(before.1, m, m).0)
            &&& value_permutations(s, counts, count + 1).1 == pyrandom::sample_of(before.1, m, m).1
        }),
        categorical_permutations(s, counts, count + 1).0 == categorical_permutations(s, counts, count).0.push(
            value_permutations(categorical_permutations(s, counts, count).1, counts, counts.len()).0,
        ),
{
}

/// Values are permuted only where that is asked for and there are categories.
pub proof fn law_values_of_members(s: Stream, p: &EnsembleConfigParams, i: int)
    requires
        0 <= i < p.n_estimators,
    ensures
        member_categorical(s, p).0.len() == p.n_estimators,
        !p.permute_categorical || p.cat_value_counts@.len() == 0 ==> member_categorical(s, p).0[i] is None
            && member_categorical(s, p).1 == s,
        p.permute_categorical && p.cat_value_counts@.len() > 0 ==> member_categorical(s, p).0[i] == Some(
            categorical_permutations(s, p.cat_value_counts@, p.n_estimators as nat).0[i],
        ),
{
}

/// Up to five features the members take different permutations out of all; from six features on each
/// draws one of its own.
pub proof fn law_features_of_members(n_features: nat, n_estimators: nat, seed: u64, i: int)
    ensures
        n_features <= 5 ==> ({
            let all = permutations_from(pyrandom::index_range(n_features), 0);
            let got = feature_permutations(n_features, n_estimators, seed);
            let k = if n_estimators < all.len() { n_estimators } else { all.len() };
            &&& got.len() == k
            &&& 0 <= i < k ==> got[i] == all[pyrandom::sample_of(stream_of(seed), all.len(), k).0[i] as int]
        }),
        n_features >= 6 ==> feature_permutations(n_features, n_estimators, seed) == samples(
            stream_of(seed),
            n_features,
            n_features,
            n_estimators,
        ).0,
{
}

/// There are as many members as asked for, but with five features or fewer no more than these have
/// permutations.
pub proof fn law_how_many_members(p: &EnsembleConfigParams)
    ensures
        member_count(p) <= p.n_estimators,
        p.n_features >= 6 ==> member_count(p) == p.n_estimators,
        p.n_features <= 5 ==> member_count(p) <= factorial(p.n_features as nat),
        p.n_features <= 5 && p.n_estimators <= factorial(p.n_features as nat) ==> member_count(p) == p.n_estimators,
        p.n_features <= 5 && p.n_estimators >= factorial(p.n_features as nat) ==> member_count(p) == factorial(
            p.n_features as nat,
        ),
        factorial(0) == 1 && factorial(1) == 1 && factorial(2) == 2 && factorial(3) == 6 && factorial(4) == 24
            && factorial(5) == 120,
{
    reveal_with_fuel(factorial, 7);
}

/// Before they are shuffled, the members take their features, shifts, values and rows in turn.
pub proof fn law_members_take_their_parts(p: &EnsembleConfigParams, i: int)
    requires
        0 <= i < patterns(p).0.len(),
    ensures
        ({
            let features = feature_permutations(p.n_features as nat, p.n_estimators as nat, p.random_state);
            let shifts = class_shifts(stream_of(p.random_state), p);
            let values = member_categorical(shifts.1, p);
            let rows = member_rows(values.1, p);
            &&& patterns(p).0.len() <= features.len()
            &&& patterns(p).0.len() <= p.n_estimators
            &&& patterns(p).0[i].feature_permutation == features[i]
            &&& patterns(p).0[i].class_shift == shifts.0[i]
            &&& patterns(p).0[i].cat_permutation == values.0[i]
            &&& patterns(p).0[i].row_subsample == rows.0[i]
            &&& patterns(p).1 == rows.1
        }),
{
}

} // verus!
