//! Combinations of models: which are formed, how each is called, and by which rule the
//! forecasts of a window are combined.

use vstd::prelude::*;

use crate::bench::model_id::ModelId;
use crate::text;

verus! {

/// A strategy for combining forecasts.
#[derive(Clone, Copy, Debug, PartialEq, Eq, Structural)]
pub enum Method {
    Mean,
    Median,
    Weighted,
    Trim,
    Softmax,
    Geometric,
    Online,
    Adaptive,
    Smooth,
    Select,
    PerHoriz,
    Uncertain,
}

/// All strategies, in the order in which they are tried.
pub open spec fn all_methods() -> Seq<Method> {
    seq![
        Method::Mean,
        Method::Median,
        Method::Weighted,
        Method::Trim,
        Method::Softmax,
        Method::Geometric,
        Method::Online,
        Method::Adaptive,
        Method::Smooth,
        Method::Select,
        Method::PerHoriz,
        Method::Uncertain,
    ]
}

impl Method {
    /// The strategy's name.
    pub open spec fn name(self) -> Seq<char> {
        match self {
            Method::Mean => "mean"@,
            Method::Median => "median"@,
            Method::Weighted => "weighted"@,
            Method::Trim => "trim"@,
            Method::Softmax => "softmax"@,
            Method::Geometric => "geometric"@,
            Method::Online => "online"@,
            Method::Adaptive => "adaptive"@,
            Method::Smooth => "smooth"@,
            Method::Select => "select"@,
            Method::PerHoriz => "per_horiz"@,
            Method::Uncertain => "uncertain"@,
        }
    }

    /// The strategy's abbreviation.
    pub open spec fn short(self) -> Seq<char> {
        match self {
            Method::Mean => "μ"@,
            Method::Median => "~"@,
            Method::Weighted => "w"@,
            Method::Trim => "tr"@,
            Method::Softmax => "sfx"@,
            Method::Geometric => "geo"@,
            Method::Online => "onl"@,
            Method::Adaptive => "ada"@,
            Method::Smooth => "smo"@,
            Method::Select => "sel"@,
            Method::PerHoriz => "wh"@,
            Method::Uncertain => "uq"@,
        }
    }

    /// What the strategy does, in a few words.
    pub open spec fn description(self) -> Seq<char> {
        match self {
            Method::Mean => "Simple mean"@,
            Method::Median => "Per-timestep median"@,
            Method::Weighted => "Inverse-MAE weighted"@,
            Method::Trim => "Trimmed mean (drop min+max per timestep)"@,
            Method::Softmax => "Softmax-weighted (sharpened inverse-MAE)"@,
            Method::Geometric => "Sign-preserving geometric mean"@,
            Method::Online => "Online adaptive (weights from previous window's error)"@,
            Method::Adaptive => "Adaptive Hedge — multiplicative weight update, optimal η=√(2 ln N/T)"@,
            Method::Smooth => "Smooth online — EMA of inverse-MAE (blend of online and Hedge)"@,
            Method::Select => "Model selection — greedy pick of single best model by EMA-MAE"@,
            Method::PerHoriz => "Per-horizon weights — distinct model mix per forecast step"@,
            Method::Uncertain => "Uncertainty-weighted — IQR for quantile models, MAE-fallback for others"@,
        }
    }

    /// Whether the strategy weighs the models by their overall errors.
    pub open spec fn uses_static_weights(self) -> bool {
        self == Method::Weighted || self == Method::Softmax
    }

    /// All strategies, in the order in which they are tried.
    pub fn all() -> (r: Vec<Method>)
        ensures
            r@ == all_methods(),
    {
        let r: Vec<Method> = vec![
            Method::Mean,
            Method::Median,
            Method::Weighted,
            Method::Trim,
            Method::Softmax,
            Method::Geometric,
            Method::Online,
            Method::Adaptive,
            Method::Smooth,
            Method::Select,
            Method::PerHoriz,
            Method::Uncertain,
        ];
        assert(r@ =~= all_methods());
        r
    }

    /// The strategy's name.
    pub fn as_str(self) -> (r: &'static str)
        ensures
            r@ == self.name(),
    {
        match self {
            Method::Mean => "mean",
            Method::Median => "median",
            Method::Weighted => "weighted",
            Method::Trim => "trim",
            Method::Softmax => "softmax",
            Method::Geometric => "geometric",
            Method::Online => "online",
            Method::Adaptive => "adaptive",
            Method::Smooth => "smooth",
            Method::Select => "select",
            Method::PerHoriz => "per_horiz",
            Method::Uncertain => "uncertain",
        }
    }

    /// The strategy's abbreviation.
    pub fn symbol(self) -> (r: &'static str)
        ensures
            r@ == self.short(),
    {
        match self {
            Method::Mean => "μ",
            Method::Median => "~",
            Method::Weighted => "w",
            Method::Trim => "tr",
            Method::Softmax => "sfx",
            Method::Geometric => "geo",
            Method::Online => "onl",
            Method::Adaptive => "ada",
            Method::Smooth => "smo",
            Method::Select => "sel",
            Method::PerHoriz => "wh",
            Method::Uncertain => "uq",
        }
    }

    /// What the strategy does, in a few words.
    pub fn desc(self) -> (r: &'static str)
        ensures
            r@ == self.description(),
    {
        match self {
            Method::Mean => "Simple mean",
            Method::Median => "Per-timestep median",
            Method::Weighted => "Inverse-MAE weighted",
            Method::Trim => "Trimmed mean (drop min+max per timestep)",
            Method::Softmax => "Softmax-weighted (sharpened inverse-MAE)",
            Method::Geometric => "Sign-preserving geometric mean",
            Method::Online => "Online adaptive (weights from previous window's error)",
            Method::Adaptive => "Adaptive Hedge — multiplicative weight update, optimal η=√(2 ln N/T)",
            Method::Smooth => "Smooth online — EMA of inverse-MAE (blend of online and Hedge)",
            Method::Select => "Model selection — greedy pick of single best model by EMA-MAE",
            Method::PerHoriz => "Per-horizon weights — distinct model mix per forecast step",
            Method::Uncertain => "Uncertainty-weighted — IQR for quantile models, MAE-fallback for others",
        }
    }

    /// The strategy of the given name.
    pub fn parse(s: &str) -> (r: Option<Method>)
        ensures
            match r {
                Some(m) => m.name() == s@,
                None => forall|m: Method| #[trigger] m.name() != s@,
            },
    {
        let all: Vec<Method> = Self::all();
        let mut i: usize = 0;
        while i < all.len()
            invariant
                i <= all@.len(),
                all@ == all_methods(),
                forall|q: int| 0 <= q < i ==> #[trigger] all@[q].name() != s@,
            decreases all@.len() - i,
        {
            if text::same(all[i].as_str(), s) {
                return Some(all[i]);
            }
            i += 1;
        }
        proof {
            assert forall|m: Method| #[trigger] m.name() != s@ by {
                let q = lemma_method_listed(m);
                assert(all@[q].name() != s@);
            }
        }
        None
    }
}

proof fn lemma_method_listed(m: Method) -> (q: int)
    ensures
        0 <= q < all_methods().len(),
        all_methods()[q] == m,
{
    match m {
        Method::Mean => 0,
        Method::Median => 1,
        Method::Weighted => 2,
        Method::Trim => 3,
        Method::Softmax => 4,
        Method::Geometric => 5,
        Method::Online => 6,
        Method::Adaptive => 7,
        Method::Smooth => 8,
        Method::Select => 9,
        Method::PerHoriz => 10,
        Method::Uncertain => 11,
    }
}

/// Different strategies have different names.
pub proof fn law_method_names_differ(a: Method, b: Method)
    requires
        a.name() == b.name(),
    ensures
        a == b,
{
    reveal_strlit("mean");
    reveal_strlit("median");
    reveal_strlit("weighted");
    reveal_strlit("trim");
    reveal_strlit("softmax");
    reveal_strlit("geometric");
    reveal_strlit("online");
    reveal_strlit("adaptive");
    reveal_strlit("smooth");
    reveal_strlit("select");
    reveal_strlit("per_horiz");
    reveal_strlit("uncertain");
    assert("mean"@.len() == 4 && "mean"@[0] == 'm');
    assert("median"@.len() == 6 && "median"@[0] == 'm');
    assert("weighted"@.len() == 8 && "weighted"@[0] == 'w');
    assert("trim"@.len() == 4 && "trim"@[0] == 't');
    assert("softmax"@.len() == 7);
    assert("geometric"@.len() == 9 && "geometric"@[0] == 'g');
    assert("online"@.len() == 6 && "online"@[0] == 'o');
    assert("adaptive"@.len() == 8 && "adaptive"@[0] == 'a');
    assert("smooth"@.len() == 6 && "smooth"@[0] == 's' && "smooth"@[1] == 'm');
    assert("select"@.len() == 6 && "select"@[0] == 's' && "select"@[1] == 'e');
    assert("per_horiz"@.len() == 9 && "per_horiz"@[0] == 'p');
    assert("uncertain"@.len() == 9 && "uncertain"@[0] == 'u');
}

/// The abbreviation of the strategy of the given name; a question mark where there is none.
pub open spec fn abbreviation(method: Seq<char>) -> Seq<char> {
    if method == Method::Mean.name() {
        Method::Mean.short()
    } else if method == Method::Median.name() {
        Method::Median.short()
    } else if method == Method::Weighted.name() {
        Method::Weighted.short()
    } else if method == Method::Trim.name() {
        Method::Trim.short()
    } else if method == Method::Softmax.name() {
        Method::Softmax.short()
    } else if method == Method::Geometric.name() {
        Method::Geometric.short()
    } else if method == Method::Online.name() {
        Method::Online.short()
    } else if method == Method::Adaptive.name() {
        Method::Adaptive.short()
    } else if method == Method::Smooth.name() {
        Method::Smooth.short()
    } else if method == Method::Select.name() {
        Method::Select.short()
    } else if method == Method::PerHoriz.name() {
        Method::PerHoriz.short()
    } else if method == Method::Uncertain.name() {
        Method::Uncertain.short()
    } else {
        "?"@
    }
}

/// The abbreviation of the strategy of the given name; a question mark where there is none.
pub fn abbrev(method: &str) -> (r: &'static str)
    ensures
        r@ == abbreviation(method@),
{
    match Method::parse(method) {
        Some(m) => {
            proof {
                assert forall|b: Method| #[trigger] b.name() == m.name() implies b == m by {
                    law_method_names_differ(b, m);
                }
            }
            m.symbol()
        },
        None => "?",
    }
}

/// The letters of a combination's models.
pub open spec fn letters(combo: Seq<ModelId>) -> Seq<char> {
    combo.map_values(|m: ModelId| m.letter_of())
}

fn letter_text(m: ModelId) -> (r: &'static str)
    ensures
        r@ == seq![m.letter_of()],
{
    proof {
        reveal_strlit("T");
        reveal_strlit("C");
        reveal_strlit("F");
        reveal_strlit("S");
        reveal_strlit("K");
        reveal_strlit("L");
        reveal_strlit("M");
        reveal_strlit("O");
        reveal_strlit("P");
        reveal_strlit("W");
        reveal_strlit("X");
    }
    let r: &'static str = match m {
        ModelId::Toto => "T",
        ModelId::Chronos => "C",
        ModelId::TimesFM => "F",
        ModelId::Sundial => "S",
        ModelId::Ttm => "K",
        ModelId::LagLlama => "L",
        ModelId::Moment => "M",
        ModelId::Moirai => "O",
        ModelId::Moirai2 => "P",
        ModelId::FlowState => "W",
        ModelId::Tirex => "X",
    };
    assert(r@ =~= seq![m.letter_of()]);
    r
}

/// The label of a combination: the models' letters and the abbreviation of the strategy in
/// brackets.
pub open spec fn label_of(combo: Seq<ModelId>, method: Seq<char>) -> Seq<char> {
    letters(combo) + "("@ + abbreviation(method) + ")"@
}

/// The label of a combination.
pub fn label(combo: &[ModelId], method: &str) -> (r: String)
    ensures
        r@ == label_of(combo@, method@),
{
    let mut out = String::new();
    let mut i: usize = 0;
    assert(out@ =~= letters(combo@.subrange(0, 0)));
    while i < combo.len()
        invariant
            i <= combo@.len(),
            out@ == letters(combo@.subrange(0, i as int)),
        decreases combo@.len() - i,
    {
        out.append(letter_text(combo[i]));
        i += 1;
        assert(out@ =~= letters(combo@.subrange(0, i as int)));
    }
    assert(combo@.subrange(0, i as int) =~= combo@);
    let a: &'static str = abbrev(method);
    out.append("(");
    out.append(a);
    out.append(")");
    assert(out@ =~= letters(combo@) + "("@ + a@ + ")"@);
    out
}

/// A label tells which models are combined.
pub proof fn law_letters_tell_models(a: Seq<ModelId>, b: Seq<ModelId>)
    requires
        letters(a) == letters(b),
    ensures
        a == b,
{
    assert(a.len() == letters(a).len() && b.len() == letters(b).len());
    assert forall|i: int| 0 <= i < a.len() implies a[i] == b[i] by {
        assert(letters(a)[i] == a[i].letter_of());
        assert(letters(b)[i] == b[i].letter_of());
    }
    assert(a =~= b);
}

/// The ways to extend `cur` to `k` items by items from place `start` on, in their order: those
/// that take the item at `start` first.
pub open spec fn combinations_from<T>(items: Seq<T>, k: nat, start: nat, cur: Seq<T>) -> Seq<Seq<T>>
    decreases items.len() - start,
{
    if cur.len() >= k {
        seq![cur]
    } else if start >= items.len() {
        Seq::empty()
    } else {
        combinations_from(items, k, start + 1, cur.push(items[start as int])) + combinations_from(
            items,
            k,
            start + 1,
            cur,
        )
    }
}

/// The number of ways to choose `k` of `n` things.
pub open spec fn binomial(n: nat, k: nat) -> nat
    decreases n,
{
    if k == 0 {
        1
    } else if n == 0 {
        0
    } else {
        binomial((n - 1) as nat, (k - 1) as nat) + binomial((n - 1) as nat, k)
    }
}

/// Whether `x` takes the items at the increasing places `at`.
pub open spec fn takes<T>(x: Seq<T>, items: Seq<T>, at: Seq<int>) -> bool {
    &&& x.len() == at.len()
    &&& forall|i: int| 0 <= i < at.len() ==> 0 <= #[trigger] at[i] < items.len() && x[i] == items[at[i]]
    &&& forall|i: int, j: int| 0 <= i < j < at.len() ==> #[trigger] at[i] < #[trigger] at[j]
}

proof fn lemma_combinations_count<T>(items: Seq<T>, k: nat, start: nat, cur: Seq<T>)
    requires
        cur.len() <= k,
        start <= items.len(),
    ensures
        combinations_from(items, k, start, cur).len() == binomial(
            (items.len() - start) as nat,
            (k - cur.len()) as nat,
        ),
    decreases items.len() - start,
{
    if cur.len() < k && start < items.len() {
        lemma_combinations_count(items, k, start + 1, cur.push(items[start as int]));
        lemma_combinations_count(items, k, start + 1, cur);
    }
}

/// As many combinations are formed as there are ways to choose.
pub proof fn law_combinations_count<T>(items: Seq<T>, k: nat)
    ensures
        combinations_from(items, k, 0, Seq::empty()).len() == binomial(items.len(), k),
{
    lemma_combinations_count(items, k, 0, Seq::<T>::empty());
}

proof fn lemma_combination_takes<T>(items: Seq<T>, k: nat, start: nat, cur: Seq<T>, had: Seq<int>, q: int)
    requires
        cur.len() <= k,
        start <= items.len(),
        takes(cur, items, had),
        forall|i: int| 0 <= i < had.len() ==> #[trigger] had[i] < start,
        0 <= q < combinations_from(items, k, start, cur).len(),
    ensures
        combinations_from(items, k, start, cur)[q].len() == k,
        exists|at: Seq<int>| takes(combinations_from(items, k, start, cur)[q], items, at),
    decreases items.len() - start,
{
    if cur.len() < k {
        let with = combinations_from(items, k, start + 1, cur.push(items[start as int]));
        let without = combinations_from(items, k, start + 1, cur);
        assert(combinations_from(items, k, start, cur) == with + without);
        if q < with.len() {
            assert(takes(cur.push(items[start as int]), items, had.push(start as int)));
            lemma_combination_takes(
                items,
                k,
                start + 1,
                cur.push(items[start as int]),
                had.push(start as int),
                q,
            );
            assert((with + without)[q] == with[q]);
            let x = with[q];
            let at = choose|at: Seq<int>| takes(x, items, at);
            assert(takes(combinations_from(items, k, start, cur)[q], items, at));
        } else {
            lemma_combination_takes(items, k, start + 1, cur, had, q - with.len());
            assert((with + without)[q] == without[q - with.len()]);
            let x = without[q - with.len()];
            let at = choose|at: Seq<int>| takes(x, items, at);
            assert(takes(combinations_from(items, k, start, cur)[q], items, at));
        }
    } else {
        assert(combinations_from(items, k, start, cur)[q] == cur);
        assert(takes(combinations_from(items, k, start, cur)[q], items, had));
    }
}

/// Every combination has `k` items, taken in their order.
pub proof fn law_combinations_in_order<T>(items: Seq<T>, k: nat, q: int)
    requires
        0 <= q < combinations_from(items, k, 0, Seq::empty()).len(),
    ensures
        combinations_from(items, k, 0, Seq::empty())[q].len() == k,
        exists|at: Seq<int>| takes(combinations_from(items, k, 0, Seq::empty())[q], items, at),
{
    lemma_combination_takes(items, k, 0, Seq::<T>::empty(), Seq::<int>::empty(), q);
}

proof fn lemma_combination_listed<T>(items: Seq<T>, k: nat, start: nat, cur: Seq<T>, x: Seq<T>, at: Seq<int>)
    requires
        takes(x, items, at),
        x.len() == k,
        cur.len() <= k,
        start <= items.len(),
        cur == x.subrange(0, cur.len() as int),
        forall|i: int| cur.len() <= i < at.len() ==> #[trigger] at[i] >= start,
    ensures
        combinations_from(items, k, start, cur).contains(x),
    decreases items.len() - start,
{
    let all = combinations_from(items, k, start, cur);
    if cur.len() == k {
        assert(cur =~= x);
        assert(all[0] == x);
    } else {
        let n = cur.len() as int;
        assert(at[n] >= start);
        let with = combinations_from(items, k, start + 1, cur.push(items[start as int]));
        let without = combinations_from(items, k, start + 1, cur);
        assert(all == with + without);
        if at[n] == start {
            let longer = cur.push(items[start as int]);
            assert(longer =~= x.subrange(0, longer.len() as int));
            assert forall|i: int| longer.len() <= i < at.len() implies #[trigger] at[i] >= start + 1 by {
                assert(at[n] < at[i]);
            }
            lemma_combination_listed(items, k, start + 1, longer, x, at);
            let q = choose|q: int| 0 <= q < with.len() && with[q] == x;
            assert(all[q] == x);
        } else {
            assert forall|i: int| cur.len() <= i < at.len() implies #[trigger] at[i] >= start + 1 by {
                if i > n {
                    assert(at[n] < at[i]);
                }
            }
            lemma_combination_listed(items, k, start + 1, cur, x, at);
            let q = choose|q: int| 0 <= q < without.len() && without[q] == x;
            assert(all[with.len() + q] == x);
        }
    }
}

/// Every choice of `k` items in their order is formed.
pub proof fn law_combinations_complete<T>(items: Seq<T>, x: Seq<T>, at: Seq<int>)
    requires
        takes(x, items, at),
    ensures
        combinations_from(items, x.len(), 0, Seq::empty()).contains(x),
{
    assert(Seq::<T>::empty() =~= x.subrange(0, 0));
    lemma_combination_listed(items, x.len(), 0, Seq::<T>::empty(), x, at);
}

/// The elements of a table's rows.
pub open spec fn rows_of<T>(t: Seq<Vec<T>>) -> Seq<Seq<T>> {
    t.map_values(|v: Vec<T>| v@)
}

fn extend_combinations<T: Copy>(items: &[T], k: usize, start: usize, cur: &mut Vec<T>, out: &mut Vec<Vec<T>>)
    requires
        start <= items@.len(),
        old(cur)@.len() <= k,
    ensures
        final(cur)@ == old(cur)@,
        rows_of(final(out)@) == rows_of(old(out)@) + combinations_from(
            items@,
            k as nat,
            start as nat,
            old(cur)@,
        ),
    decreases items@.len() - start,
{
    if cur.len() == k {
        let copy: Vec<T> = copied(cur);
        out.push(copy);
        assert(rows_of(out@) =~= rows_of(old(out)@).push(cur@));
        assert(rows_of(out@) =~= rows_of(old(out)@) + seq![cur@]);
        return;
    }
    let mut i: usize = start;
    while i < items.len()
        invariant
            start <= i <= items@.len(),
            cur@ == old(cur)@,
            cur@.len() < k,
            rows_of(out@) + combinations_from(items@, k as nat, i as nat, cur@) == rows_of(old(out)@)
                + combinations_from(items@, k as nat, start as nat, cur@),
        decreases items@.len() - i,
    {
        let ghost before = rows_of(out@);
        let ghost with = combinations_from(items@, k as nat, (i + 1) as nat, cur@.push(items@[i as int]));
        let ghost without = combinations_from(items@, k as nat, (i + 1) as nat, cur@);
        cur.push(items[i]);
        extend_combinations(items, k, i + 1, cur, out);
        cur.pop();
        assert(cur@ =~= old(cur)@);
        assert(before + (with + without) =~= rows_of(out@) + without);
        i += 1;
    }
    assert(combinations_from(items@, k as nat, i as nat, cur@) =~= Seq::<Seq<T>>::empty());
    assert(rows_of(out@) + Seq::<Seq<T>>::empty() =~= rows_of(out@));
}

fn copied<T: Copy>(v: &Vec<T>) -> (r: Vec<T>)
    ensures
        r@ == v@,
{
    let mut out: Vec<T> = Vec::new();
    let mut i: usize = 0;
    while i < v.len()
        invariant
            i <= v@.len(),
            out@ == v@.subrange(0, i as int),
        decreases v@.len() - i,
    {
        out.push(v[i]);
        i += 1;
        assert(out@ =~= v@.subrange(0, i as int));
    }
    assert(out@ =~= v@);
    out
}

/// All ways to take `k` of the items in their order.
pub fn combinations<T: Copy>(items: &[T], k: usize) -> (r: Vec<Vec<T>>)
    ensures
        rows_of(r@) == combinations_from(items@, k as nat, 0, Seq::empty()),
{
    let mut cur: Vec<T> = Vec::new();
    let mut out: Vec<Vec<T>> = Vec::new();
    extend_combinations(items, k, 0, &mut cur, &mut out);
    assert(rows_of(out@) =~= combinations_from(items@, k as nat, 0, Seq::<T>::empty()));
    out
}

/// What the strategies are called, their signs, and their order.
pub proof fn law_methods_are_called()
    ensures
        Method::Mean.name() == "mean"@,
        Method::Median.name() == "median"@,
        Method::Weighted.name() == "weighted"@,
        Method::Trim.name() == "trim"@,
        Method::Softmax.name() == "softmax"@,
        Method::Geometric.name() == "geometric"@,
        Method::Online.name() == "online"@,
        Method::Adaptive.name() == "adaptive"@,
        Method::Smooth.name() == "smooth"@,
        Method::Select.name() == "select"@,
        Method::PerHoriz.name() == "per_horiz"@,
        Method::Uncertain.name() == "uncertain"@,
        Method::Mean.short() == "μ"@,
        Method::Median.short() == "~"@,
        Method::Weighted.short() == "w"@,
        Method::Trim.short() == "tr"@,
        Method::Softmax.short() == "sfx"@,
        Method::Geometric.short() == "geo"@,
        Method::Online.short() == "onl"@,
        Method::Adaptive.short() == "ada"@,
        Method::Smooth.short() == "smo"@,
        Method::Select.short() == "sel"@,
        Method::PerHoriz.short() == "wh"@,
        Method::Uncertain.short() == "uq"@,
        Method::Mean.description() == "Simple mean"@,
        Method::Median.description() == "Per-timestep median"@,
        Method::Weighted.description() == "Inverse-MAE weighted"@,
        Method::Trim.description() == "Trimmed mean (drop min+max per timestep)"@,
        Method::Softmax.description() == "Softmax-weighted (sharpened inverse-MAE)"@,
        Method::Geometric.description() == "Sign-preserving geometric mean"@,
        Method::Online.description() == "Online adaptive (weights from previous window's error)"@,
        Method::Adaptive.description() == "Adaptive Hedge — multiplicative weight update, optimal η=√(2 ln N/T)"@,
        Method::Smooth.description() == "Smooth online — EMA of inverse-MAE (blend of online and Hedge)"@,
        Method::Select.description() == "Model selection — greedy pick of single best model by EMA-MAE"@,
        Method::PerHoriz.description() == "Per-horizon weights — distinct model mix per forecast step"@,
        Method::Uncertain.description() == "Uncertainty-weighted — IQR for quantile models, MAE-fallback for others"@,
        all_methods().len() == 12,
        all_methods()[0] == Method::Mean,
        all_methods()[1] == Method::Median,
        all_methods()[2] == Method::Weighted,
        all_methods()[3] == Method::Trim,
        all_methods()[4] == Method::Softmax,
        all_methods()[5] == Method::Geometric,
        all_methods()[6] == Method::Online,
        all_methods()[7] == Method::Adaptive,
        all_methods()[8] == Method::Smooth,
        all_methods()[9] == Method::Select,
        all_methods()[10] == Method::PerHoriz,
        all_methods()[11] == Method::Uncertain,
        forall|m: Method| #[trigger] m.uses_static_weights() <==> (m is Weighted || m is Softmax),
{
}

/// A strategy's name has the strategy's sign, and what is no strategy's name has a question mark.
pub proof fn law_signs_of_names(m: Method, other: Seq<char>)
    ensures
        abbreviation(m.name()) == m.short(),
        (forall|m: Method| #[trigger] m.name() != other) ==> abbreviation(other) == "?"@,
{
    if m.name() == Method::Mean.name() {
        law_method_names_differ(m, Method::Mean);
    }
    if m.name() == Method::Median.name() {
        law_method_names_differ(m, Method::Median);
    }
    if m.name() == Method::Weighted.name() {
        law_method_names_differ(m, Method::Weighted);
    }
    if m.name() == Method::Trim.name() {
        law_method_names_differ(m, Method::Trim);
    }
    if m.name() == Method::Softmax.name() {
        law_method_names_differ(m, Method::Softmax);
    }
    if m.name() == Method::Geometric.name() {
        law_method_names_differ(m, Method::Geometric);
    }
    if m.name() == Method::Online.name() {
        law_method_names_differ(m, Method::Online);
    }
    if m.name() == Method::Adaptive.name() {
        law_method_names_differ(m, Method::Adaptive);
    }
    if m.name() == Method::Smooth.name() {
        law_method_names_differ(m, Method::Smooth);
    }
    if m.name() == Method::Select.name() {
        law_method_names_differ(m, Method::Select);
    }
    if m.name() == Method::PerHoriz.name() {
        law_method_names_differ(m, Method::PerHoriz);
    }
    if m.name() == Method::Uncertain.name() {
        law_method_names_differ(m, Method::Uncertain);
    }
    if forall|m: Method| #[trigger] m.name() != other {
        assert(Method::Mean.name() != other);
        assert(Method::Median.name() != other);
        assert(Method::Weighted.name() != other);
        assert(Method::Trim.name() != other);
        assert(Method::Softmax.name() != other);
        assert(Method::Geometric.name() != other);
        assert(Method::Online.name() != other);
        assert(Method::Adaptive.name() != other);
        assert(Method::Smooth.name() != other);
        assert(Method::Select.name() != other);
        assert(Method::PerHoriz.name() != other);
        assert(Method::Uncertain.name() != other);
    }
}

/// A label is the letters of its models in their order, and the strategy's sign in brackets.
pub proof fn law_labels_spell_models(combo: Seq<ModelId>, m: Method, i: int)
    ensures
        label_of(combo, m.name()) == combo.map_values(|x: ModelId| x.letter_of()) + "("@ + m.short() + ")"@,
        0 <= i < combo.len() ==> letters(combo)[i] == combo[i].letter_of(),
        letters(combo).len() == combo.len(),
{
    law_signs_of_names(m, m.name());
}

proof fn lemma_first_from<T>(items: Seq<T>, k: nat, start: nat, cur: Seq<T>)
    requires
        cur.len() <= k,
        start + (k - cur.len()) <= items.len(),
    ensures
        combinations_from(items, k, start, cur).len() > 0,
        combinations_from(items, k, start, cur)[0] == cur + items.subrange(start as int, start + (k - cur.len())),
    decreases items.len() - start,
{
    if cur.len() < k {
        lemma_first_from(items, k, start + 1, cur.push(items[start as int]));
        assert(cur.push(items[start as int]) + items.subrange(start as int + 1, start + (k - cur.len())) =~= cur
            + items.subrange(start as int, start + (k - cur.len())));
    } else {
        assert(cur + items.subrange(start as int, start as int) =~= cur);
    }
}

/// The first combination is the first items.
pub proof fn law_first_combination<T>(items: Seq<T>, k: nat)
    requires
        k <= items.len(),
    ensures
        combinations_from(items, k, 0, Seq::empty()).len() > 0,
        combinations_from(items, k, 0, Seq::empty())[0] == items.take(k as int),
{
    lemma_first_from(items, k, 0, Seq::empty());
    assert(Seq::<T>::empty() + items.subrange(0, k as int) =~= items.take(k as int));
}

proof fn lemma_prefix_shared<T>(items: Seq<T>, k: nat, start: nat, cur: Seq<T>, q: int)
    requires
        0 <= q < combinations_from(items, k, start, cur).len(),
    ensures
        cur.len() <= combinations_from(items, k, start, cur)[q].len(),
        combinations_from(items, k, start, cur)[q].take(cur.len() as int) == cur,
    decreases items.len() - start,
{
    if cur.len() >= k {
        assert(cur.take(cur.len() as int) =~= cur);
    } else if start < items.len() {
        let next = cur.push(items[start as int]);
        let first = combinations_from(items, k, start + 1, next);
        if q < first.len() {
            lemma_prefix_shared(items, k, start + 1, next, q);
            let x = first[q];
            assert(x.take(cur.len() as int) =~= x.take(next.len() as int).take(cur.len() as int));
            assert(next.take(cur.len() as int) =~= cur);
        } else {
            lemma_prefix_shared(items, k, start + 1, cur, q - first.len());
        }
    }
}

/// Combinations that start with the first item come before all others.
pub proof fn law_combinations_with_the_first_come_first<T>(items: Seq<T>, k: nat, q: int)
    requires
        0 < k,
        0 < items.len(),
        0 <= q < combinations_from(items, k, 1, seq![items[0]]).len(),
    ensures
        q < combinations_from(items, k, 0, Seq::empty()).len(),
        combinations_from(items, k, 0, Seq::empty())[q].len() > 0,
        combinations_from(items, k, 0, Seq::empty())[q][0] == items[0],
{
    assert(Seq::<T>::empty().push(items[0]) =~= seq![items[0]]);
    lemma_prefix_shared(items, k, 1, seq![items[0]], q);
    let x = combinations_from(items, k, 1, seq![items[0]])[q];
    assert(x.take(1)[0] == x[0]);
}

} // verus!
