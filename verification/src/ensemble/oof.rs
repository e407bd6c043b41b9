//! Out-of-fold splitting: every training row is held out in exactly one fold.

use vstd::arithmetic::div_mod;
use vstd::prelude::*;

use crate::ensemble::config_gen;
use crate::ensemble::pyrandom;
use crate::ensemble::pyrandom::PyRandom;

verus! {

/// One fold: the rows that are trained on, and those that are held out.
pub struct KFoldSplit {
    pub train_idx: Vec<usize>,
    pub val_idx: Vec<usize>,
}

/// How many folds a split of `n` rows has, where `k` are asked for: no more than rows, and at
/// least one.
pub open spec fn fold_count(n: nat, k: nat) -> nat {
    let m = if k < n { k } else { n };
    if m < 1 {
        1
    } else {
        m
    }
}

/// The rows in shuffled order.
pub open spec fn fold_order(n: nat, seed: u64) -> Seq<usize> {
    pyrandom::shuffle_of(config_gen::stream_of(seed), pyrandom::index_range(n)).0
}

/// Where fold `i` of `m` begins: the folds that come first are one row larger where `n` rows do
/// not divide evenly.
pub open spec fn fold_start(n: nat, m: nat, i: nat) -> nat {
    i * (n / m) + (if i < n % m { i } else { n % m })
}

/// The rows that fold `i` holds out.
pub open spec fn held_out(order: Seq<usize>, m: nat, i: nat) -> Seq<usize> {
    order.subrange(fold_start(order.len(), m, i) as int, fold_start(order.len(), m, i + 1) as int)
}

/// The rows that fold `i` trains on.
pub open spec fn trained_on(order: Seq<usize>, m: nat, i: nat) -> Seq<usize> {
    order.subrange(0, fold_start(order.len(), m, i) as int) + order.subrange(
        fold_start(order.len(), m, i + 1) as int,
        order.len() as int,
    )
}

/// Folds follow each other from the first row to the last.
pub proof fn lemma_fold_bounds(n: nat, m: nat, i: nat)
    requires
        0 < m,
        i < m,
    ensures
        fold_start(n, m, i + 1) == fold_start(n, m, i) + n / m + (if i < n % m { 1nat } else { 0nat }),
        fold_start(n, m, i) <= fold_start(n, m, i + 1) <= n,
        fold_start(n, m, 0) == 0,
        fold_start(n, m, m) == n,
{
    let b = (n / m) as int;
    let rem = (n % m) as int;
    div_mod::lemma_fundamental_div_mod(n as int, m as int);
    assert((i + 1) * b == i * b + b) by (nonlinear_arith);
    assert((i + 1) * b <= m * b) by (nonlinear_arith)
        requires
            i + 1 <= m,
            0 <= b,
    ;
    assert(m * b + rem == n) by (nonlinear_arith)
        requires
            n == m * b + rem,
    ;
    assert(0 * b == 0) by (nonlinear_arith);
}

proof fn lemma_fold_start_monotone(n: nat, m: nat, i: nat, j: nat)
    requires
        0 < m,
        i <= j <= m,
    ensures
        fold_start(n, m, i) <= fold_start(n, m, j) <= n,
    decreases j - i,
{
    if i < j {
        lemma_fold_start_monotone(n, m, i, (j - 1) as nat);
        lemma_fold_bounds(n, m, (j - 1) as nat);
    } else if i < m {
        lemma_fold_bounds(n, m, i);
    } else {
        lemma_fold_bounds(n, m, 0);
    }
}

/// The fold that position `q` of the order falls into.
proof fn lemma_fold_of(n: nat, m: nat, q: nat, upto: nat) -> (i: nat)
    requires
        0 < m,
        upto <= m,
        q < fold_start(n, m, upto),
    ensures
        i < upto,
        fold_start(n, m, i) <= q < fold_start(n, m, i + 1),
    decreases upto,
{
    if upto == 0 {
        lemma_fold_bounds(n, m, 0);
        0
    } else if q < fold_start(n, m, (upto - 1) as nat) {
        lemma_fold_of(n, m, q, (upto - 1) as nat)
    } else {
        (upto - 1) as nat
    }
}

/// Whether `row` stands at position `j` of the rows that fold `i` holds out.
pub open spec fn holds_out(order: Seq<usize>, m: nat, row: usize, i: nat, j: int) -> bool {
    i < m && 0 <= j < held_out(order, m, i).len() && held_out(order, m, i)[j] == row
}

/// Every row is held out in exactly one fold, once.
pub proof fn law_each_row_held_out_once(order: Seq<usize>, m: nat, row: usize)
    requires
        0 < m,
        config_gen::is_permutation(order, order.len()),
        row < order.len(),
    ensures
        exists|i: nat, j: int| holds_out(order, m, row, i, j),
        forall|i: nat, j: int, a: nat, b: int|
            holds_out(order, m, row, i, j) && holds_out(order, m, row, a, b) ==> i == a && j == b,
{
    let n = order.len();
    lemma_fold_bounds(n, m, 0);
    pyrandom::lemma_all_indices(order, n);
    assert(order.contains(row));
    let q = choose|q: int| 0 <= q < n && order[q] == row;
    let i = lemma_fold_of(n, m, q as nat, m);
    lemma_fold_bounds(n, m, i);
    assert(holds_out(order, m, row, i, q - fold_start(n, m, i)));
    assert forall|i: nat, j: int, a: nat, b: int|
        holds_out(order, m, row, i, j) && holds_out(order, m, row, a, b) implies i == a && j == b by {
        lemma_fold_bounds(n, m, i);
        lemma_fold_bounds(n, m, a);
        let x = fold_start(n, m, i) + j;
        let y = fold_start(n, m, a) + b;
        assert(order[x] == row && order[y] == row);
        assert(x == y);
        if i < a {
            lemma_fold_start_monotone(n, m, i + 1, a);
        } else if a < i {
            lemma_fold_start_monotone(n, m, a + 1, i);
        }
    }
}

/// A fold's two parts hold every row exactly once between them.
pub proof fn law_fold_parts_complement(order: Seq<usize>, m: nat, i: nat)
    requires
        0 < m,
        i < m,
    ensures
        (trained_on(order, m, i) + held_out(order, m, i)).to_multiset() == order.to_multiset(),
{
    let n = order.len();
    lemma_fold_bounds(n, m, i);
    let a = order.subrange(0, fold_start(n, m, i) as int);
    let b = held_out(order, m, i);
    let c = order.subrange(fold_start(n, m, i + 1) as int, n as int);
    vstd::seq_lib::lemma_multiset_commutative(a + c, b);
    vstd::seq_lib::lemma_multiset_commutative(a, c);
    vstd::seq_lib::lemma_multiset_commutative(a, b);
    vstd::seq_lib::lemma_multiset_commutative(a + b, c);
    assert(order =~= (a + b) + c);
    assert((trained_on(order, m, i) + b).to_multiset() =~= order.to_multiset());
}

/// The entries `from..to` of `v`.
pub fn slice_copy<T: Copy>(v: &[T], from: usize, to: usize) -> (r: Vec<T>)
    requires
        from <= to <= v@.len(),
    ensures
        r@ == v@.subrange(from as int, to as int),
{
    let mut out: Vec<T> = Vec::new();
    let mut i: usize = from;
    while i < to
        invariant
            from <= i <= to <= v@.len(),
            out@ == v@.subrange(from as int, i as int),
        decreases to - i,
    {
        out.push(v[i]);
        i += 1;
        assert(out@ =~= v@.subrange(from as int, i as int));
    }
    out
}

/// A shuffled split of `0..n` into folds.
pub fn kfold_splits(n: usize, k: usize, random_state: u64) -> (r: Vec<KFoldSplit>)
    ensures
        config_gen::is_permutation(fold_order(n as nat, random_state), n as nat),
        r@.len() == fold_count(n as nat, k as nat),
        forall|i: int|
            0 <= i < r@.len() ==> {
                &&& (#[trigger] r@[i]).val_idx@ == held_out(
                    fold_order(n as nat, random_state),
                    r@.len(),
                    i as nat,
                )
                &&& r@[i].train_idx@ == trained_on(fold_order(n as nat, random_state), r@.len(), i as nat)
            },
{
    let mut indices: Vec<usize> = Vec::new();
    let mut fill: usize = 0;
    while fill < n
        invariant
            fill <= n,
            indices@ == pyrandom::index_range(fill as nat),
        decreases n - fill,
    {
        indices.push(fill);
        fill += 1;
        assert(indices@ =~= pyrandom::index_range(fill as nat));
    }
    let ghost identity = indices@;
    let mut rng = PyRandom::new(random_state);
    rng.shuffle(indices.as_mut_slice());
    let ghost order = fold_order(n as nat, random_state);
    assert(indices@ == order);
    proof {
        lemma_shuffled_identity(identity, order, n as nat);
    }
    let least: usize = if k < n { k } else { n };
    let m: usize = if least < 1 { 1 } else { least };
    let base: usize = n / m;
    let remainder: usize = n % m;
    let mut folds: Vec<KFoldSplit> = Vec::new();
    let mut start: usize = 0;
    let mut i: usize = 0;
    proof {
        lemma_fold_bounds(n as nat, m as nat, 0);
    }
    while i < m
        invariant
            i <= m,
            0 < m == fold_count(n as nat, k as nat),
            base == n / m,
            remainder == n % m,
            indices@ == order,
            order.len() == n,
            order == fold_order(n as nat, random_state),
            start == fold_start(n as nat, m as nat, i as nat),
            folds@.len() == i,
            forall|q: int|
                0 <= q < i ==> {
                    &&& (#[trigger] folds@[q]).val_idx@ == held_out(order, m as nat, q as nat)
                    &&& folds@[q].train_idx@ == trained_on(order, m as nat, q as nat)
                },
        decreases m - i,
    {
        proof {
            lemma_fold_bounds(n as nat, m as nat, i as nat);
        }
        let extra: usize = if i < remainder { 1 } else { 0 };
        let end: usize = start + base + extra;
        let val_idx: Vec<usize> = slice_copy(indices.as_slice(), start, end);
        let mut train_idx: Vec<usize> = slice_copy(indices.as_slice(), 0, start);
        let mut rest: Vec<usize> = slice_copy(indices.as_slice(), end, n);
        train_idx.append(&mut rest);
        folds.push(KFoldSplit { train_idx, val_idx });
        start = end;
        i += 1;
    }
    folds
}

/// A shuffle of the identity is a permutation.
proof fn lemma_shuffled_identity(identity: Seq<usize>, order: Seq<usize>, n: nat)
    requires
        n <= usize::MAX,
        identity == pyrandom::index_range(n),
        order.to_multiset() == identity.to_multiset(),
    ensures
        config_gen::is_permutation(order, n),
{
    broadcast use vstd::seq_lib::group_to_multiset_ensures;

    assert(identity.len() == identity.to_multiset().len());
    assert(order.len() == order.to_multiset().len());
    assert(order.len() == n);
    assert(identity.no_duplicates());
    identity.lemma_multiset_has_no_duplicates();
    assert forall|x: usize| order.to_multiset().contains(x) implies order.to_multiset().count(x) == 1 by {
        assert(identity.to_multiset().count(x) == 1);
    }
    order.lemma_multiset_has_no_duplicates_conv();
    assert forall|i: int| 0 <= i < order.len() implies #[trigger] order[i] < n by {
        assert(order.contains(order[i]));
        assert(identity.to_multiset().count(order[i]) > 0);
        assert(identity.contains(order[i]));
    }
}

/// The elements of `rows` at the given positions.
pub fn select_rows<T: Clone>(rows: &[T], idx: &[usize]) -> (r: Vec<T>)
    requires
        forall|i: int| 0 <= i < idx@.len() ==> #[trigger] idx@[i] < rows@.len(),
    ensures
        r@.len() == idx@.len(),
        forall|i: int| 0 <= i < idx@.len() ==> cloned::<T>(rows@[idx@[i] as int], #[trigger] r@[i]),
{
    let mut out: Vec<T> = Vec::new();
    let mut i: usize = 0;
    while i < idx.len()
        invariant
            i <= idx@.len(),
            out@.len() == i,
            forall|q: int| 0 <= q < idx@.len() ==> #[trigger] idx@[q] < rows@.len(),
            forall|q: int| 0 <= q < i ==> cloned::<T>(rows@[idx@[q] as int], #[trigger] out@[q]),
        decreases idx@.len() - i,
    {
        out.push(rows[idx[i]].clone());
        i += 1;
    }
    out
}

/// There are as many folds as asked for, but no more than rows, and never none.
pub proof fn law_how_many_folds(n: nat, k: nat)
    ensures
        1 <= k <= n ==> fold_count(n, k) == k,
        1 <= n <= k ==> fold_count(n, k) == n,
        n == 0 || k == 0 ==> fold_count(n, k) == 1,
{
}

/// Folds differ in size by one row at most, and the larger ones come first.
pub proof fn law_folds_are_even(order: Seq<usize>, m: nat, i: nat, j: nat)
    requires
        0 < m,
        i <= j < m,
    ensures
        held_out(order, m, j).len() <= held_out(order, m, i).len() <= held_out(order, m, j).len() + 1,
{
    lemma_fold_bounds(order.len(), m, i);
    lemma_fold_bounds(order.len(), m, j);
}

/// Each fold holds out the rows after those of the fold before it, and trains on all the others in
/// their order.
pub proof fn law_folds_follow(order: Seq<usize>, m: nat, i: nat, q: int)
    requires
        0 < m,
        i < m,
    ensures
        fold_start(order.len(), m, 0) == 0,
        fold_start(order.len(), m, m) == order.len(),
        fold_start(order.len(), m, i + 1) == fold_start(order.len(), m, i) + held_out(order, m, i).len(),
        0 <= q < held_out(order, m, i).len() ==> held_out(order, m, i)[q] == order[fold_start(order.len(), m, i) + q],
        trained_on(order, m, i).len() + held_out(order, m, i).len() == order.len(),
        0 <= q < fold_start(order.len(), m, i) ==> trained_on(order, m, i)[q] == order[q],
        fold_start(order.len(), m, i) <= q < trained_on(order, m, i).len() ==> trained_on(order, m, i)[q] == order[q
            + held_out(order, m, i).len()],
{
    lemma_fold_bounds(order.len(), m, i);
}

} // verus!
