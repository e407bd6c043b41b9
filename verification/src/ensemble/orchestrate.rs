//! One prediction by an ensemble.
//!
//! Every member sees the table with its columns permuted and normalized in its own way, and its
//! labels shifted; the members are run in batches, and their outputs are put together. The models
//! themselves, and all arithmetic on floating-point numbers, are not here: values are held as bits.

use vstd::prelude::*;

use crate::ensemble::aggregate;
use crate::ensemble::cat_encoder;
use crate::ensemble::cat_encoder::{Cell, LabelEncoder};
use crate::ensemble::config_gen;
use crate::ensemble::config_gen::{EnsembleConfigParams, MemberConfig, NormMethod};
use crate::ensemble::oof;
use crate::ensemble::oof::KFoldSplit;
use crate::float_bits;
use crate::layout;

verus! {

/// The members in a batch, where it is not said.
pub const DEFAULT_BATCH_CHUNK_SIZE: usize = 8;

/// The bits of the double 1.
pub const ONE: u64 = 0x3ff0_0000_0000_0000;

/// What a prediction is made with. Numbers with a fraction are held as the bits of doubles.
#[derive(Debug)]
pub struct EnsembleParams {
    pub n_estimators: usize,
    pub norm_methods: Vec<NormMethod>,
    pub class_shift: bool,
    pub outlier_threshold: u64,
    pub softmax_temperature: u64,
    pub average_logits: bool,
    pub random_state: u64,
    pub binary_calibration: bool,
    pub multiclass_calibration: bool,
    pub num_folds_for_cv: usize,
    pub enable_nnls: bool,
    pub nnls_beta: u64,
    pub calibration_lambda: u64,
    pub batch_size: Option<usize>,
}

impl Default for EnsembleParams {
    fn default() -> (r: Self)
        ensures
            r.n_estimators == 32,
            r.norm_methods@ == seq![NormMethod::Identity, NormMethod::Power],
            r.class_shift,
            r.outlier_threshold == 0x4010_0000_0000_0000,
            r.softmax_temperature == 0x3fec_cccc_cccc_cccd,
            r.average_logits,
            r.random_state == 42,
            !r.binary_calibration,
            !r.multiclass_calibration,
            r.num_folds_for_cv == 5,
            !r.enable_nnls,
            r.nnls_beta == 0x3fe8_0000_0000_0000,
            r.calibration_lambda == 0x3f84_7ae1_47ae_147b,
            r.batch_size is None,
    {
        let norm_methods: Vec<NormMethod> = vec![NormMethod::Identity, NormMethod::Power];
        assert(norm_methods@ =~= seq![NormMethod::Identity, NormMethod::Power]);
        EnsembleParams {
            n_estimators: 32,
            norm_methods,
            class_shift: true,
            outlier_threshold: 0x4010_0000_0000_0000,
            softmax_temperature: 0x3fec_cccc_cccc_cccd,
            average_logits: true,
            random_state: 42,
            binary_calibration: false,
            multiclass_calibration: false,
            num_folds_for_cv: 5,
            enable_nnls: false,
            nnls_beta: 0x3fe8_0000_0000_0000,
            calibration_lambda: 0x3f84_7ae1_47ae_147b,
            batch_size: None,
        }
    }
}

impl EnsembleParams {
    /// The number of members.
    pub fn with_n_estimators(self, v: usize) -> (r: Self)
        ensures
            r == (EnsembleParams { n_estimators: v, ..self }),
    {
        let mut r = self;
        r.n_estimators = v;
        r
    }

    /// The ways of normalizing that the members take in turn.
    pub fn with_norm_methods(self, v: Vec<NormMethod>) -> (r: Self)
        ensures
            r == (EnsembleParams { norm_methods: v, ..self }),
    {
        let mut r = self;
        r.norm_methods = v;
        r
    }

    /// Whether labels are shifted.
    pub fn with_class_shift(self, v: bool) -> (r: Self)
        ensures
            r == (EnsembleParams { class_shift: v, ..self }),
    {
        let mut r = self;
        r.class_shift = v;
        r
    }

    /// How far out a value is an outlier.
    pub fn with_outlier_threshold(self, v: u64) -> (r: Self)
        ensures
            r == (EnsembleParams { outlier_threshold: v, ..self }),
    {
        let mut r = self;
        r.outlier_threshold = v;
        r
    }

    /// The temperature of the probabilities.
    pub fn with_softmax_temperature(self, v: u64) -> (r: Self)
        ensures
            r == (EnsembleParams { softmax_temperature: v, ..self }),
    {
        let mut r = self;
        r.softmax_temperature = v;
        r
    }

    /// Whether outputs are averaged before they become probabilities.
    pub fn with_average_logits(self, v: bool) -> (r: Self)
        ensures
            r == (EnsembleParams { average_logits: v, ..self }),
    {
        let mut r = self;
        r.average_logits = v;
        r
    }

    /// The seed.
    pub fn with_random_state(self, v: u64) -> (r: Self)
        ensures
            r == (EnsembleParams { random_state: v, ..self }),
    {
        let mut r = self;
        r.random_state = v;
        r
    }

    /// Whether the probabilities of two classes are calibrated.
    pub fn with_binary_calibration(self, v: bool) -> (r: Self)
        ensures
            r == (EnsembleParams { binary_calibration: v, ..self }),
    {
        let mut r = self;
        r.binary_calibration = v;
        r
    }

    /// Whether the probabilities of more classes are calibrated.
    pub fn with_multiclass_calibration(self, v: bool) -> (r: Self)
        ensures
            r == (EnsembleParams { multiclass_calibration: v, ..self }),
    {
        let mut r = self;
        r.multiclass_calibration = v;
        r
    }

    /// The number of folds.
    pub fn with_num_folds_for_cv(self, v: usize) -> (r: Self)
        ensures
            r == (EnsembleParams { num_folds_for_cv: v, ..self }),
    {
        let mut r = self;
        r.num_folds_for_cv = v;
        r
    }

    /// Whether members are weighted.
    pub fn with_enable_nnls(self, v: bool) -> (r: Self)
        ensures
            r == (EnsembleParams { enable_nnls: v, ..self }),
    {
        let mut r = self;
        r.enable_nnls = v;
        r
    }

    /// The share of the fitted weights.
    pub fn with_nnls_beta(self, v: u64) -> (r: Self)
        ensures
            r == (EnsembleParams { nnls_beta: v, ..self }),
    {
        let mut r = self;
        r.nnls_beta = v;
        r
    }

    /// The weight that holds the calibration back.
    pub fn with_calibration_lambda(self, v: u64) -> (r: Self)
        ensures
            r == (EnsembleParams { calibration_lambda: v, ..self }),
    {
        let mut r = self;
        r.calibration_lambda = v;
        r
    }

    /// The members in a batch.
    pub fn with_batch_size(self, v: Option<usize>) -> (r: Self)
        ensures
            r == (EnsembleParams { batch_size: v, ..self }),
    {
        let mut r = self;
        r.batch_size = v;
        r
    }

    /// Whether the probabilities of so many classes are calibrated.
    pub open spec fn calibrates(&self, n_classes: nat) -> bool {
        if n_classes == 2 {
            self.binary_calibration
        } else {
            self.multiclass_calibration
        }
    }

    /// Whether the probabilities of so many classes are calibrated.
    pub fn calibration(&self, n_classes: usize) -> (r: bool)
        ensures
            r == self.calibrates(n_classes as nat),
    {
        if n_classes == 2 {
            self.binary_calibration
        } else {
            self.multiclass_calibration
        }
    }

    /// Whether the outputs on held-out rows are needed: for weights or for calibration.
    pub fn needs_oof(&self, n_classes: usize) -> (r: bool)
        ensures
            r == (self.enable_nnls || self.calibrates(n_classes as nat)),
    {
        self.enable_nnls || self.calibration(n_classes)
    }
}

/// A run of members: from one up to, and without, the other.
#[derive(Debug, Clone, Copy, PartialEq, Eq, Structural)]
pub struct Chunk {
    pub start: usize,
    pub end: usize,
}

/// The members in a batch.
pub open spec fn chunk_size(batch_size: Option<usize>) -> nat {
    match batch_size {
        Some(n) => if n < 1 {
            1
        } else {
            n as nat
        },
        None => DEFAULT_BATCH_CHUNK_SIZE as nat,
    }
}

/// Whether the runs follow each other from the first member to the last, all of the given size but
/// for the last one, which may be smaller.
pub open spec fn covers(chunks: Seq<Chunk>, n: nat, size: nat) -> bool {
    &&& forall|i: int|
        0 <= i < chunks.len() ==> (#[trigger] chunks[i]).start == i * size && chunks[i].end == (if (i + 1) * size < n {
            ((i + 1) * size) as int
        } else {
            n as int
        }) && chunks[i].start < chunks[i].end
    &&& n <= chunks.len() * size < n + size
}

/// The members in batches.
pub fn chunks(n: usize, batch_size: Option<usize>) -> (r: Vec<Chunk>)
    ensures
        covers(r@, n as nat, chunk_size(batch_size)),
{
    let size: usize = match batch_size {
        Some(s) => if s < 1 {
            1
        } else {
            s
        },
        None => DEFAULT_BATCH_CHUNK_SIZE,
    };
    let mut out: Vec<Chunk> = Vec::new();
    let mut start: usize = 0;
    assert(0 * size == 0) by (nonlinear_arith);
    while start < n
        invariant
            size == chunk_size(batch_size),
            size > 0,
            start <= n,
            start == n || start == out@.len() * size,
            n <= out@.len() * size || start == out@.len() * size,
            out@.len() * size < n + size,
            forall|i: int|
                0 <= i < out@.len() ==> (#[trigger] out@[i]).start == i * size && out@[i].end == (if (i + 1) * size < n {
                    (i + 1) * size
                } else {
                    n as int
                }) && out@[i].start < out@[i].end,
        decreases n - start,
    {
        let ghost k = out@.len() as int;
        let end: usize = if size < n - start { start + size } else { n };
        assert((k + 1) * size == k * size + size) by (nonlinear_arith);
        assert(start == k * size);
        out.push(Chunk { start, end });
        start = end;
    }
    out
}

/// Every member is in exactly one batch.
pub proof fn law_each_member_once(cs: Seq<Chunk>, n: nat, size: nat, m: int)
    requires
        size > 0,
        covers(cs, n, size),
        0 <= m < n,
    ensures
        exists|i: int| 0 <= i < cs.len() && (#[trigger] cs[i]).start <= m < cs[i].end,
        forall|i: int, j: int|
            0 <= i < cs.len() && 0 <= j < cs.len() && (#[trigger] cs[i]).start <= m < cs[i].end && (
            #[trigger] cs[j]).start <= m < cs[j].end ==> i == j,
{
    let i = m / size as int;
    layout::lemma_place(m, cs.len() as int, size as int);
    assert((i + 1) * size == i * size + size) by (nonlinear_arith);
    assert(cs[i].start <= m < cs[i].end);
    assert forall|a: int, b: int|
        0 <= a < cs.len() && 0 <= b < cs.len() && (#[trigger] cs[a]).start <= m < cs[a].end && (
        #[trigger] cs[b]).start <= m < cs[b].end implies a == b by {
        lemma_only(a, b, m, size as int, cs[a].end as int, cs[b].end as int);
    }
}

proof fn lemma_only(a: int, b: int, m: int, size: int, end_a: int, end_b: int)
    by (nonlinear_arith)
    requires
        size > 0,
        0 <= a,
        0 <= b,
        a * size <= m < end_a,
        b * size <= m < end_b,
        end_a <= (a + 1) * size,
        end_b <= (b + 1) * size,
    ensures
        a == b,
{
}

/// The labels that a member sees: the shifted ones of the training rows, and zero for the others.
pub open spec fn member_labels(codes: Seq<i64>, shift: int, n_classes: int, n_query: nat) -> Seq<usize> {
    codes.map_values(|c: i64| aggregate::shifted(c as int, shift, n_classes) as usize) + Seq::new(
        n_query,
        |i: int| 0usize,
    )
}

/// The labels that a member sees.
pub fn labels_for(codes: &[i64], shift: usize, n_classes: usize, n_query: usize) -> (r: Vec<usize>)
    requires
        0 < n_classes,
    ensures
        r@ == member_labels(codes@, shift as int, n_classes as int, n_query as nat),
{
    let mut out: Vec<usize> = Vec::new();
    let mut i: usize = 0;
    while i < codes.len()
        invariant
            0 < n_classes,
            i <= codes@.len(),
            out@.len() == i,
            forall|q: int|
                0 <= q < i ==> #[trigger] out@[q] == aggregate::shifted(
                    codes@[q] as int,
                    shift as int,
                    n_classes as int,
                ),
        decreases codes@.len() - i,
    {
        let sum: i128 = codes[i] as i128 + shift as i128;
        let n: i128 = n_classes as i128;
        let label: i128 = if sum >= 0 {
            sum % n
        } else {
            let back: i128 = (-sum) % n;
            proof {
                lemma_negative_mod((-sum) as int, n as int);
            }
            if back == 0 {
                0
            } else {
                n - back
            }
        };
        out.push(label as usize);
        i += 1;
    }
    let mut k: usize = 0;
    while k < n_query
        invariant
            k <= n_query,
            out@.len() == codes@.len() + k,
            forall|q: int|
                0 <= q < out@.len() ==> #[trigger] out@[q] == member_labels(
                    codes@,
                    shift as int,
                    n_classes as int,
                    n_query as nat,
                )[q],
        decreases n_query - k,
    {
        out.push(0);
        k += 1;
    }
    assert(out@ =~= member_labels(codes@, shift as int, n_classes as int, n_query as nat));
    out
}

proof fn lemma_negative_mod(a: int, n: int)
    requires
        a > 0,
        n > 0,
    ensures
        a % n == 0 ==> (-a) % n == 0,
        a % n != 0 ==> (-a) % n == n - a % n,
{
    vstd::arithmetic::div_mod::lemma_fundamental_div_mod(a, n);
    let q = a / n;
    let r = a % n;
    if r == 0 {
        assert(-a == n * (-q)) by (nonlinear_arith)
            requires
                a == n * q,
        ;
        vstd::arithmetic::div_mod::lemma_fundamental_div_mod_converse(-a, n, -q, 0);
    } else {
        assert(-a == n * (-q - 1) + (n - r)) by (nonlinear_arith)
            requires
                a == n * q + r,
        ;
        vstd::arithmetic::div_mod::lemma_fundamental_div_mod_converse(-a, n, -q - 1, n - r);
    }
}

/// A column, normalized in one way: its values on the training rows and on the others.
#[derive(Debug)]
pub struct ScaledColumn {
    pub column: usize,
    pub method: NormMethod,
    pub train: Vec<u32>,
    pub query: Vec<u32>,
}

/// Whether entry `k` is the first for a column and a method.
pub open spec fn entry_for(cache: Seq<ScaledColumn>, column: usize, method: NormMethod, k: int) -> bool {
    &&& 0 <= k < cache.len()
    &&& cache[k].column == column
    &&& cache[k].method == method
    &&& forall|j: int| 0 <= j < k ==> !((#[trigger] cache[j]).column == column && cache[j].method == method)
}

/// Whether every column that a member uses is there, with a value for every row.
pub open spec fn complete(cache: Seq<ScaledColumn>, member: MemberConfig, n_train: nat, n_query: nat) -> bool {
    forall|p: int|
        0 <= p < member.feature_permutation@.len() ==> exists|k: int|
            entry_for(cache, #[trigger] member.feature_permutation@[p], member.norm_method, k)
                && cache[k].train@.len() == n_train && cache[k].query@.len() == n_query
}

/// A member's table: its rows, and which of its columns are categorical.
#[derive(Debug)]
pub struct MemberTable {
    pub x: Vec<Vec<u32>>,
    pub cat_mask: Vec<bool>,
}

fn find_entry(cache: &Vec<ScaledColumn>, column: usize, method: NormMethod) -> (r: usize)
    requires
        exists|k: int| entry_for(cache@, column, method, k),
    ensures
        entry_for(cache@, column, method, r as int),
{
    let ghost at = choose|k: int| entry_for(cache@, column, method, k);
    let n: usize = cache.len();
    let mut k: usize = 0;
    while !(cache[k].column == column && cache[k].method == method)
        invariant
            n == cache@.len(),
            entry_for(cache@, column, method, at),
            k <= at,
            forall|j: int| 0 <= j < k ==> !((#[trigger] cache@[j]).column == column && cache@[j].method == method),
        decreases at - k,
    {
        k += 1;
    }
    k
}

/// The value of a member's table at a row and a place: that of the column which stands there.
pub open spec fn table_value(cache: Seq<ScaledColumn>, member: MemberConfig, n_train: int, row: int, p: int, v: u32) -> bool {
    exists|k: int|
        #[trigger] entry_for(cache, member.feature_permutation@[p], member.norm_method, k) && v == (if row < n_train {
            cache[k].train@[row]
        } else {
            cache[k].query@[row - n_train]
        })
}

/// A member's table: its columns, normalized in its way, in its order.
pub fn build_member_table(
    cache: &Vec<ScaledColumn>,
    n_train: usize,
    n_query: usize,
    cat_mask: &[bool],
    member: &MemberConfig,
) -> (r: MemberTable)
    requires
        n_train + n_query <= usize::MAX,
        complete(cache@, *member, n_train as nat, n_query as nat),
        forall|p: int|
            0 <= p < member.feature_permutation@.len() ==> #[trigger] member.feature_permutation@[p] < cat_mask@.len(),
    ensures
        r.x@.len() == n_train + n_query,
        forall|row: int|
            0 <= row < r.x@.len() ==> (#[trigger] r.x@[row])@.len() == member.feature_permutation@.len(),
        forall|row: int, p: int|
            0 <= row < r.x@.len() && 0 <= p < member.feature_permutation@.len() ==> table_value(
                cache@,
                *member,
                n_train as int,
                row,
                p,
                #[trigger] r.x@[row]@[p],
            ),
        r.cat_mask@ == member.feature_permutation@.map_values(|c: usize| cat_mask@[c as int]),
{
    let h: usize = member.feature_permutation.len();
    let mut places: Vec<usize> = Vec::new();
    let mut mask: Vec<bool> = Vec::new();
    let mut p: usize = 0;
    while p < h
        invariant
            p <= h == member.feature_permutation@.len(),
            complete(cache@, *member, n_train as nat, n_query as nat),
            forall|q: int|
                0 <= q < member.feature_permutation@.len() ==> #[trigger] member.feature_permutation@[q]
                    < cat_mask@.len(),
            places@.len() == p,
            mask@.len() == p,
            forall|q: int| 0 <= q < p ==> #[trigger] mask@[q] == cat_mask@[member.feature_permutation@[q] as int],
            forall|q: int|
                0 <= q < p ==> fits_rows(
                    cache@,
                    member.feature_permutation@[q],
                    member.norm_method,
                    #[trigger] places@[q],
                    n_train as nat,
                    n_query as nat,
                ),
        decreases h - p,
    {
        let c: usize = member.feature_permutation[p];
        mask.push(cat_mask[c]);
        assert(exists|k: int| entry_for(cache@, c, member.norm_method, k));
        let k: usize = find_entry(cache, c, member.norm_method);
        proof {
            let at = choose|k: int|
                entry_for(cache@, c, member.norm_method, k) && cache@[k].train@.len() == n_train
                    && cache@[k].query@.len() == n_query;
            lemma_entry_unique(cache@, c, member.norm_method, k as int, at);
        }
        places.push(k);
        p += 1;
    }
    assert(mask@ =~= member.feature_permutation@.map_values(|c: usize| cat_mask@[c as int]));
    let mut x: Vec<Vec<u32>> = Vec::new();
    let mut row: usize = 0;
    while row < n_train + n_query
        invariant
            n_train + n_query <= usize::MAX,
            row <= n_train + n_query,
            h == member.feature_permutation@.len(),
            places@.len() == h,
            forall|q: int|
                0 <= q < h ==> fits_rows(
                    cache@,
                    member.feature_permutation@[q],
                    member.norm_method,
                    #[trigger] places@[q],
                    n_train as nat,
                    n_query as nat,
                ),
            x@.len() == row,
            forall|i: int| 0 <= i < row ==> (#[trigger] x@[i])@.len() == h,
            forall|i: int, q: int|
                0 <= i < row && 0 <= q < h ==> table_value(
                    cache@,
                    *member,
                    n_train as int,
                    i,
                    q,
                    #[trigger] x@[i]@[q],
                ),
        decreases n_train + n_query - row,
    {
        let mut line: Vec<u32> = Vec::new();
        let mut q: usize = 0;
        while q < h
            invariant
                q <= h == member.feature_permutation@.len(),
                row < n_train + n_query,
                places@.len() == h,
                forall|j: int|
                    0 <= j < h ==> fits_rows(
                        cache@,
                        member.feature_permutation@[j],
                        member.norm_method,
                        #[trigger] places@[j],
                        n_train as nat,
                        n_query as nat,
                    ),
                line@.len() == q,
                forall|j: int|
                    0 <= j < q ==> table_value(
                        cache@,
                        *member,
                        n_train as int,
                        row as int,
                        j,
                        #[trigger] line@[j],
                    ),
            decreases h - q,
        {
            assert(fits_rows(
                cache@,
                member.feature_permutation@[q as int],
                member.norm_method,
                places@[q as int],
                n_train as nat,
                n_query as nat,
            ));
            let e: &ScaledColumn = &cache[places[q]];
            let v: u32 = if row < n_train { e.train[row] } else { e.query[row - n_train] };
            assert(entry_for(
                cache@,
                member.feature_permutation@[q as int],
                member.norm_method,
                places@[q as int] as int,
            ));
            line.push(v);
            q += 1;
        }
        x.push(line);
        row += 1;
    }
    MemberTable { x, cat_mask: mask }
}

/// Whether an entry is that of a column and a method, with a value for every row.
pub open spec fn fits_rows(
    cache: Seq<ScaledColumn>,
    column: usize,
    method: NormMethod,
    k: usize,
    n_train: nat,
    n_query: nat,
) -> bool {
    &&& entry_for(cache, column, method, k as int)
    &&& cache[k as int].train@.len() == n_train
    &&& cache[k as int].query@.len() == n_query
}

proof fn lemma_entry_unique(cache: Seq<ScaledColumn>, column: usize, method: NormMethod, a: int, b: int)
    requires
        entry_for(cache, column, method, a),
        entry_for(cache, column, method, b),
    ensures
        a == b,
{
}

/// The ways in which members normalize, each once.
pub fn distinct_norm_methods(configs: &Vec<MemberConfig>) -> (r: Vec<NormMethod>)
    ensures
        r@.no_duplicates(),
        forall|m: NormMethod| #[trigger]
            r@.contains(m) <==> exists|i: int| 0 <= i < configs@.len() && (#[trigger] configs@[i]).norm_method == m,
{
    let mut out: Vec<NormMethod> = Vec::new();
    let mut i: usize = 0;
    while i < configs.len()
        invariant
            i <= configs@.len(),
            out@.no_duplicates(),
            forall|m: NormMethod| #[trigger]
                out@.contains(m) <==> exists|q: int| 0 <= q < i && (#[trigger] configs@[q]).norm_method == m,
        decreases configs@.len() - i,
    {
        let m: NormMethod = configs[i].norm_method;
        let ghost before = out@;
        let mut j: usize = 0;
        while j < out.len() && out[j] != m
            invariant
                j <= out@.len(),
                forall|q: int| 0 <= q < j ==> out@[q] != m,
            decreases out@.len() - j,
        {
            j += 1;
        }
        if j == out.len() {
            assert(!before.contains(m));
            out.push(m);
        }
        assert forall|k: NormMethod| #[trigger] out@.contains(k) <==> exists|q: int|
            0 <= q < i + 1 && (#[trigger] configs@[q]).norm_method == k by {
            if before.contains(k) {
                let q = choose|q: int| 0 <= q < before.len() && before[q] == k;
                assert(out@[q] == k);
                let w = choose|w: int| 0 <= w < i && (#[trigger] configs@[w]).norm_method == k;
                assert(configs@[w].norm_method == k);
            }
            if k == m {
                assert(configs@[i as int].norm_method == k);
                assert(out@[if j < before.len() { j as int } else { before.len() as int }] == k);
            }
            if exists|q: int| 0 <= q < i + 1 && (#[trigger] configs@[q]).norm_method == k {
                let w = choose|w: int| 0 <= w < i + 1 && (#[trigger] configs@[w]).norm_method == k;
                if w < i {
                    assert(before.contains(k));
                }
            }
            if out@.contains(k) && k != m {
                let q = choose|q: int| 0 <= q < out@.len() && out@[q] == k;
                assert(before[q] == k);
            }
        }
        i += 1;
    }
    out
}

/// What a row of every member's outputs holds.
pub fn row_of_members<T: Copy>(outputs: &Vec<Vec<Vec<T>>>, row: usize) -> (r: Vec<Vec<T>>)
    requires
        forall|m: int| 0 <= m < outputs@.len() ==> row < (#[trigger] outputs@[m])@.len(),
    ensures
        r@.len() == outputs@.len(),
        forall|m: int| 0 <= m < r@.len() ==> (#[trigger] r@[m])@ == outputs@[m]@[row as int]@,
{
    let mut out: Vec<Vec<T>> = Vec::new();
    let mut m: usize = 0;
    while m < outputs.len()
        invariant
            m <= outputs@.len(),
            forall|q: int| 0 <= q < outputs@.len() ==> row < (#[trigger] outputs@[q])@.len(),
            out@.len() == m,
            forall|q: int| 0 <= q < m ==> (#[trigger] out@[q])@ == outputs@[q]@[row as int]@,
        decreases outputs@.len() - m,
    {
        let v: &Vec<T> = &outputs[m][row];
        let copy: Vec<T> = oof::slice_copy(v.as_slice(), 0, v.len());
        assert(copy@ =~= v@);
        out.push(copy);
        m += 1;
    }
    out
}

/// The target of the fit of weights: for every row a one at its class and zeros elsewhere.
pub open spec fn one_hot(codes: Seq<usize>, n_classes: int) -> Seq<u64> {
    Seq::new(
        (codes.len() * n_classes) as nat,
        |i: int| if codes[i / n_classes] == i % n_classes { ONE } else { 0u64 },
    )
}

/// The target of the fit of weights.
pub fn nnls_target(codes: &[usize], n_classes: usize) -> (r: Vec<u64>)
    requires
        0 < n_classes,
    ensures
        r@ == one_hot(codes@, n_classes as int),
{
    let mut out: Vec<u64> = Vec::new();
    let mut row: usize = 0;
    assert(0 * n_classes == 0) by (nonlinear_arith);
    while row < codes.len()
        invariant
            0 < n_classes,
            row <= codes@.len(),
            out@.len() == row * n_classes,
            forall|q: int| 0 <= q < out@.len() ==> #[trigger] out@[q] == one_hot(codes@, n_classes as int)[q],
        decreases codes@.len() - row,
    {
        let mut c: usize = 0;
        while c < n_classes
            invariant
                row < codes@.len(),
                c <= n_classes,
                out@.len() == row * n_classes + c,
                forall|q: int| 0 <= q < out@.len() ==> #[trigger] out@[q] == one_hot(codes@, n_classes as int)[q],
            decreases n_classes - c,
        {
            proof {
                layout::lemma_at2(row as int, c as int, n_classes as int);
                layout::lemma_at2_bound(row as int, c as int, codes@.len() as int, n_classes as int);
            }
            out.push(if codes[row] == c { ONE } else { 0 });
            c += 1;
        }
        row += 1;
        assert((row - 1) * n_classes + n_classes == row * n_classes) by (nonlinear_arith);
    }
    assert(out@ =~= one_hot(codes@, n_classes as int));
    out
}

/// A member's column of the fit of weights: its probabilities, row after row.
pub open spec fn flat<T>(rows: Seq<Vec<T>>, n_classes: int) -> Seq<T> {
    Seq::new((rows.len() * n_classes) as nat, |i: int| rows[i / n_classes]@[i % n_classes])
}

/// A member's column of the fit of weights.
pub fn nnls_column<T: Copy>(rows: &Vec<Vec<T>>, n_classes: usize) -> (r: Vec<T>)
    requires
        0 < n_classes,
        forall|i: int| 0 <= i < rows@.len() ==> n_classes <= (#[trigger] rows@[i])@.len(),
    ensures
        r@ == flat(rows@, n_classes as int),
{
    let mut out: Vec<T> = Vec::new();
    let mut row: usize = 0;
    assert(0 * n_classes == 0) by (nonlinear_arith);
    while row < rows.len()
        invariant
            0 < n_classes,
            forall|i: int| 0 <= i < rows@.len() ==> n_classes <= (#[trigger] rows@[i])@.len(),
            row <= rows@.len(),
            out@.len() == row * n_classes,
            forall|q: int| 0 <= q < out@.len() ==> #[trigger] out@[q] == flat(rows@, n_classes as int)[q],
        decreases rows@.len() - row,
    {
        let mut c: usize = 0;
        while c < n_classes
            invariant
                row < rows@.len(),
                n_classes <= rows@[row as int]@.len(),
                c <= n_classes,
                out@.len() == row * n_classes + c,
                forall|q: int| 0 <= q < out@.len() ==> #[trigger] out@[q] == flat(rows@, n_classes as int)[q],
            decreases n_classes - c,
        {
            proof {
                layout::lemma_at2(row as int, c as int, n_classes as int);
                layout::lemma_at2_bound(row as int, c as int, rows@.len() as int, n_classes as int);
            }
            out.push(rows[row][c]);
            c += 1;
        }
        row += 1;
        assert((row - 1) * n_classes + n_classes == row * n_classes) by (nonlinear_arith);
    }
    assert(out@ =~= flat(rows@, n_classes as int));
    out
}

/// The label of the greatest probability of each row; the first one where several are equal.
pub fn predicted_labels(probabilities: &Vec<Vec<u64>>, encoder: &LabelEncoder) -> (r: Vec<String>)
    requires
        probabilities@.len() > 0 ==> encoder.names().len() > 0,
        forall|i: int|
            0 <= i < probabilities@.len() ==> (#[trigger] probabilities@[i])@.len() <= encoder.names().len(),
    ensures
        r@.len() == probabilities@.len(),
        forall|i: int|
            0 <= i < r@.len() ==> (#[trigger] r@[i])@ == encoder.names()[float_bits::scan_greatest(
                probabilities@[i]@,
                probabilities@[i]@.len(),
            ).0 as int],
{
    let mut out: Vec<String> = Vec::new();
    let mut i: usize = 0;
    while i < probabilities.len()
        invariant
            i <= probabilities@.len(),
            probabilities@.len() > 0 ==> encoder.names().len() > 0,
            forall|q: int|
                0 <= q < probabilities@.len() ==> (#[trigger] probabilities@[q])@.len() <= encoder.names().len(),
            out@.len() == i,
            forall|q: int|
                0 <= q < i ==> (#[trigger] out@[q])@ == encoder.names()[float_bits::scan_greatest(
                    probabilities@[q]@,
                    probabilities@[q]@.len(),
                ).0 as int],
        decreases probabilities@.len() - i,
    {
        let best: usize = float_bits::first_greatest(probabilities[i].as_slice());
        assert(probabilities@[i as int]@.len() <= encoder.names().len());
        out.push(encoder.decode(best).to_string());
        i += 1;
    }
    out
}

/// Puts the outputs on a fold's held-out rows in the places of those rows.
pub fn scatter<T: Copy>(into: &mut Vec<T>, fold: &KFoldSplit, outputs: &[T])
    requires
        outputs@.len() >= fold.val_idx@.len(),
        forall|i: int| 0 <= i < fold.val_idx@.len() ==> #[trigger] fold.val_idx@[i] < old(into)@.len(),
        fold.val_idx@.no_duplicates(),
    ensures
        final(into)@.len() == old(into)@.len(),
        forall|i: int|
            0 <= i < fold.val_idx@.len() ==> final(into)@[(#[trigger] fold.val_idx@[i]) as int] == outputs@[i],
        forall|k: int|
            0 <= k < old(into)@.len() && !fold.val_idx@.contains(k as usize) ==> #[trigger] final(into)@[k] == old(
                into,
            )@[k],
{
    let mut i: usize = 0;
    while i < fold.val_idx.len()
        invariant
            i <= fold.val_idx@.len() <= outputs@.len(),
            into@.len() == old(into)@.len(),
            forall|q: int| 0 <= q < fold.val_idx@.len() ==> #[trigger] fold.val_idx@[q] < old(into)@.len(),
            fold.val_idx@.no_duplicates(),
            forall|q: int| 0 <= q < i ==> into@[(#[trigger] fold.val_idx@[q]) as int] == outputs@[q],
            forall|k: int|
                0 <= k < into@.len() && !fold.val_idx@.contains(k as usize) ==> #[trigger] into@[k] == old(into)@[k],
        decreases fold.val_idx@.len() - i,
    {
        let at: usize = fold.val_idx[i];
        into.set(at, outputs[i]);
        assert(fold.val_idx@.contains(at)) by {
            assert(fold.val_idx@[i as int] == at);
        }
        i += 1;
    }
}

/// Whether the folds are those of a split of `n` rows.
pub open spec fn is_split(folds: Seq<KFoldSplit>, n: nat, seed: u64) -> bool {
    &&& folds.len() > 0
    &&& config_gen::is_permutation(oof::fold_order(n, seed), n)
    &&& forall|i: int|
        0 <= i < folds.len() ==> (#[trigger] folds[i]).val_idx@ == oof::held_out(
            oof::fold_order(n, seed),
            folds.len(),
            i as nat,
        )
}

/// A row is held out in one place only.
proof fn lemma_held_out_apart(folds: Seq<KFoldSplit>, n: nat, seed: u64, i: int, j: int, a: int, b: int)
    requires
        is_split(folds, n, seed),
        0 <= i < folds.len(),
        0 <= j < folds[i].val_idx@.len(),
        0 <= a < folds.len(),
        0 <= b < folds[a].val_idx@.len(),
    ensures
        folds[i].val_idx@[j] < n,
        folds[i].val_idx@[j] == folds[a].val_idx@[b] ==> i == a && j == b,
{
    let order = oof::fold_order(n, seed);
    let m = folds.len();
    let row = folds[i].val_idx@[j];
    oof::lemma_fold_bounds(n, m, i as nat);
    assert(order.len() == n);
    assert(row == order[oof::fold_start(n, m, i as nat) + j]);
    oof::law_each_row_held_out_once(order, m, row);
    assert(oof::holds_out(order, m, row, i as nat, j));
    if folds[a].val_idx@[b] == row {
        assert(oof::holds_out(order, m, row, a as nat, b));
    }
}

/// The outputs on held-out rows, in the order of the rows: every row has the output of the fold that
/// held it out.
pub fn collect_oof<T: Copy>(n: usize, random_state: u64, folds: &Vec<KFoldSplit>, outputs: &Vec<Vec<T>>, blank: T) -> (r:
    Vec<T>)
    requires
        is_split(folds@, n as nat, random_state),
        outputs@.len() == folds@.len(),
        forall|i: int|
            0 <= i < folds@.len() ==> (#[trigger] outputs@[i])@.len() >= folds@[i].val_idx@.len(),
    ensures
        r@.len() == n,
        forall|i: int, j: int|
            0 <= i < folds@.len() && 0 <= j < folds@[i].val_idx@.len() ==> r@[(
            #[trigger] folds@[i].val_idx@[j]) as int] == outputs@[i]@[j],
{
    let mut out: Vec<T> = Vec::new();
    while out.len() < n
        invariant
            out@.len() <= n,
        decreases n - out@.len(),
    {
        out.push(blank);
    }
    let mut i: usize = 0;
    while i < folds.len()
        invariant
            i <= folds@.len(),
            is_split(folds@, n as nat, random_state),
            outputs@.len() == folds@.len(),
            forall|q: int|
                0 <= q < folds@.len() ==> (#[trigger] outputs@[q])@.len() >= folds@[q].val_idx@.len(),
            out@.len() == n,
            forall|q: int, j: int|
                0 <= q < i && 0 <= j < folds@[q].val_idx@.len() ==> out@[(#[trigger] folds@[q].val_idx@[j]) as int]
                    == outputs@[q]@[j],
        decreases folds@.len() - i,
    {
        let ghost before = out@;
        let fold: &KFoldSplit = &folds[i];
        proof {
            assert forall|j: int| 0 <= j < fold.val_idx@.len() implies #[trigger] fold.val_idx@[j] < n by {
                lemma_held_out_apart(folds@, n as nat, random_state, i as int, j, i as int, j);
            }
            assert forall|a: int, b: int|
                0 <= a < fold.val_idx@.len() && 0 <= b < fold.val_idx@.len() && a != b implies fold.val_idx@[a]
                != fold.val_idx@[b] by {
                lemma_held_out_apart(folds@, n as nat, random_state, i as int, a, i as int, b);
            }
            assert(outputs@[i as int]@.len() >= folds@[i as int].val_idx@.len());
        }
        scatter(&mut out, fold, outputs[i].as_slice());
        proof {
            assert forall|q: int, j: int|
                0 <= q < i + 1 && 0 <= j < folds@[q].val_idx@.len() implies out@[(
            #[trigger] folds@[q].val_idx@[j]) as int] == outputs@[q]@[j] by {
                let row = folds@[q].val_idx@[j];
                if q < i {
                    lemma_held_out_apart(folds@, n as nat, random_state, q, j, q, j);
                    if fold.val_idx@.contains(row) {
                        let b = choose|b: int| 0 <= b < fold.val_idx@.len() && fold.val_idx@[b] == row;
                        lemma_held_out_apart(folds@, n as nat, random_state, q, j, i as int, b);
                    }
                    assert(out@[row as int] == before[row as int]);
                } else {
                    assert(fold.val_idx@[j] == row);
                }
            }
        }
        i += 1;
    }
    out
}

/// What a classification starts from.
pub struct ClassificationPlan {
    pub encoder: LabelEncoder,
    /// The codes of the training labels.
    pub codes: Vec<i64>,
    pub configs: Vec<MemberConfig>,
    pub needs_oof: bool,
    pub calibrates: bool,
}

/// What the members of a classification are generated from.
pub open spec fn classification_params(
    c: EnsembleConfigParams,
    p: EnsembleParams,
    n_features: nat,
    n_train: nat,
    n_classes: nat,
) -> bool {
    &&& c.n_estimators == p.n_estimators
    &&& c.n_features == n_features
    &&& c.n_train_rows == n_train
    &&& c.is_classification
    &&& c.n_classes == n_classes
    &&& c.class_shift == p.class_shift
    &&& !c.permute_categorical
    &&& c.cat_value_counts@.len() == 0
    &&& c.max_num_rows is None
    &&& c.norm_methods@ == p.norm_methods@
    &&& c.random_state == p.random_state
}

/// What the members of a regression are generated from.
pub open spec fn regression_params(c: EnsembleConfigParams, p: EnsembleParams, n_features: nat, n_train: nat) -> bool {
    &&& c.n_estimators == p.n_estimators
    &&& c.n_features == n_features
    &&& c.n_train_rows == n_train
    &&& !c.is_classification
    &&& c.n_classes == 1
    &&& !c.class_shift
    &&& !c.permute_categorical
    &&& c.cat_value_counts@.len() == 0
    &&& c.max_num_rows is None
    &&& c.norm_methods@ == p.norm_methods@
    &&& c.random_state == p.random_state
}

/// Whether the members are those that are generated from the parameters.
pub open spec fn generated(configs: Seq<MemberConfig>, c: EnsembleConfigParams) -> bool {
    &&& configs.map_values(|m: MemberConfig| m.pattern()) == config_gen::ensemble_patterns(&c)
    &&& forall|i: int|
        0 <= i < configs.len() ==> (#[trigger] configs[i]).norm_method == c.norm_methods@[i
            % (c.norm_methods@.len() as int)]
}

/// What a classification starts from: the codes of the training labels and the members.
pub fn plan_classification(y_train: &[Cell], n_features: usize, p: &EnsembleParams) -> (r: ClassificationPlan)
    requires
        y_train@.len() <= i64::MAX,
        p.norm_methods@.len() > 0,
    ensures
        r.encoder.wf(),
        forall|key: Seq<char>| r.encoder.names().contains(key) <==> cat_encoder::occurs(y_train@, key),
        r.codes@.len() == y_train@.len(),
        forall|i: int|
            0 <= i < r.codes@.len() ==> #[trigger] r.codes@[i] == cat_encoder::cell_code(
                r.encoder.names(),
                y_train@[i],
            ),
        exists|c: EnsembleConfigParams|
            #[trigger] classification_params(
                c,
                *p,
                n_features as nat,
                y_train@.len(),
                r.encoder.names().len(),
            ) && generated(r.configs@, c),
        r.calibrates == p.calibrates(r.encoder.names().len()),
        r.needs_oof == (p.enable_nnls || r.calibrates),
{
    let encoder: LabelEncoder = LabelEncoder::fit(y_train);
    let codes: Vec<i64> = encoder.transform(y_train);
    let n_classes: usize = encoder.n_classes();
    let params = EnsembleConfigParams {
        n_estimators: p.n_estimators,
        n_features,
        n_train_rows: y_train.len(),
        is_classification: true,
        n_classes,
        class_shift: p.class_shift,
        permute_categorical: false,
        cat_value_counts: Vec::new(),
        max_num_rows: None,
        norm_methods: copied_methods(&p.norm_methods),
        random_state: p.random_state,
    };
    let configs: Vec<MemberConfig> = config_gen::generate_ensemble(&params);
    let calibrates: bool = p.calibration(n_classes);
    let r = ClassificationPlan { encoder, codes, configs, needs_oof: p.enable_nnls || calibrates, calibrates };
    assert(classification_params(params, *p, n_features as nat, y_train@.len(), r.encoder.names().len()));
    assert(generated(r.configs@, params));
    r
}

/// The members of a regression.
pub fn plan_regression(n_train: usize, n_features: usize, p: &EnsembleParams) -> (r: Vec<MemberConfig>)
    requires
        p.norm_methods@.len() > 0,
    ensures
        exists|c: EnsembleConfigParams|
            #[trigger] regression_params(c, *p, n_features as nat, n_train as nat) && generated(r@, c),
{
    let params = EnsembleConfigParams {
        n_estimators: p.n_estimators,
        n_features,
        n_train_rows: n_train,
        is_classification: false,
        n_classes: 1,
        class_shift: false,
        permute_categorical: false,
        cat_value_counts: Vec::new(),
        max_num_rows: None,
        norm_methods: copied_methods(&p.norm_methods),
        random_state: p.random_state,
    };
    let configs: Vec<MemberConfig> = config_gen::generate_ensemble(&params);
    assert(regression_params(params, *p, n_features as nat, n_train as nat));
    assert(generated(configs@, params));
    configs
}

fn copied_methods(v: &Vec<NormMethod>) -> (r: Vec<NormMethod>)
    ensures
        r@ == v@,
{
    let r: Vec<NormMethod> = oof::slice_copy(v.as_slice(), 0, v.len());
    assert(r@ =~= v@);
    r
}

/// Two classes are calibrated where the one switch says so, and more or fewer where the other does.
pub proof fn law_what_is_calibrated(p: EnsembleParams, n_classes: nat)
    ensures
        n_classes == 2 ==> p.calibrates(n_classes) == p.binary_calibration,
        n_classes != 2 ==> p.calibrates(n_classes) == p.multiclass_calibration,
{
}

/// Members run eight at a time where nothing is said, and never none at a time.
pub proof fn law_members_at_a_time(n: usize)
    ensures
        chunk_size(None) == 8,
        chunk_size(Some(0)) == 1,
        n >= 1 ==> chunk_size(Some(n)) == n,
{
}

/// A member's labels are the training labels moved by its shift, and zeros for the queries.
pub proof fn law_labels_of_members(codes: Seq<i64>, shift: int, n_classes: int, n_query: nat, i: int)
    requires
        0 <= shift < n_classes <= usize::MAX,
    ensures
        member_labels(codes, shift, n_classes, n_query).len() == codes.len() + n_query,
        0 <= i < codes.len() && 0 <= codes[i] && codes[i] + shift < n_classes ==> member_labels(
            codes,
            shift,
            n_classes,
            n_query,
        )[i] == codes[i] + shift,
        0 <= i < codes.len() && codes[i] < n_classes <= codes[i] + shift ==> member_labels(
            codes,
            shift,
            n_classes,
            n_query,
        )[i] == codes[i] + shift - n_classes,
        codes.len() <= i < codes.len() + n_query ==> member_labels(codes, shift, n_classes, n_query)[i] == 0,
{
    if 0 <= i < codes.len() && 0 <= codes[i] < n_classes {
        aggregate::law_classes_turn(codes, codes[i] as int, shift, n_classes);
    }
}

/// The target of a row is one in the place of its class and zero elsewhere.
pub proof fn law_targets_are_ones(codes: Seq<usize>, n_classes: int, row: int, c: int)
    requires
        0 <= row < codes.len(),
        0 <= c < n_classes,
    ensures
        one_hot(codes, n_classes).len() == codes.len() * n_classes,
        row * n_classes + c < one_hot(codes, n_classes).len(),
        codes[row] == c ==> one_hot(codes, n_classes)[row * n_classes + c] == 0x3ff0_0000_0000_0000,
        codes[row] != c ==> one_hot(codes, n_classes)[row * n_classes + c] == 0,
{
    let i = row * n_classes + c;
    assert(i / n_classes == row && i % n_classes == c) by {
        vstd::arithmetic::div_mod::lemma_fundamental_div_mod_converse(i, n_classes, row, c);
    }
    assert(0 <= i < codes.len() * n_classes) by (nonlinear_arith)
        requires
            i == row * n_classes + c,
            0 <= row < codes.len(),
            0 <= c < n_classes,
    ;
}

/// Rows are laid out one after the other, each with as many values as there are classes.
pub proof fn law_rows_are_laid_out<T>(rows: Seq<Vec<T>>, n_classes: int, row: int, c: int)
    requires
        0 <= row < rows.len(),
        0 <= c < n_classes,
    ensures
        flat(rows, n_classes).len() == rows.len() * n_classes,
        row * n_classes + c < flat(rows, n_classes).len(),
        flat(rows, n_classes)[row * n_classes + c] == rows[row]@[c],
{
    let i = row * n_classes + c;
    assert(i / n_classes == row && i % n_classes == c) by {
        vstd::arithmetic::div_mod::lemma_fundamental_div_mod_converse(i, n_classes, row, c);
    }
    assert(0 <= i < rows.len() * n_classes) by (nonlinear_arith)
        requires
            i == row * n_classes + c,
            0 <= row < rows.len(),
            0 <= c < n_classes,
    ;
}

/// A member's table holds its columns in its own order, scaled in its own way: the training rows
/// first, the queries after them.
pub proof fn law_tables_of_members(
    cache: Seq<ScaledColumn>,
    member: MemberConfig,
    n_train: int,
    row: int,
    p: int,
    v: u32,
    k: int,
)
    requires
        table_value(cache, member, n_train, row, p, v),
        0 <= k < cache.len(),
        cache[k].column == member.feature_permutation@[p],
        cache[k].method == member.norm_method,
        forall|j: int|
            0 <= j < k ==> (#[trigger] cache[j]).column != member.feature_permutation@[p] || cache[j].method
                != member.norm_method,
    ensures
        row < n_train ==> v == cache[k].train@[row],
        row >= n_train ==> v == cache[k].query@[row - n_train],
{
    let column = member.feature_permutation@[p];
    let a = choose|a: int|
        #[trigger] entry_for(cache, column, member.norm_method, a) && v == (if row < n_train {
            cache[a].train@[row]
        } else {
            cache[a].query@[row - n_train]
        });
    assert(entry_for(cache, column, member.norm_method, k));
    lemma_entry_unique(cache, column, member.norm_method, a, k);
}

/// What members are made from: as many as asked for, with every feature and every row; classes are
/// shifted where that is asked for, and a regression has none to shift.
pub proof fn law_members_as_asked(
    c: EnsembleConfigParams,
    p: EnsembleParams,
    n_features: nat,
    n_train: nat,
    n_classes: nat,
)
    ensures
        classification_params(c, p, n_features, n_train, n_classes) || regression_params(c, p, n_features, n_train) ==> {
            &&& c.n_estimators == p.n_estimators
            &&& c.random_state == p.random_state
            &&& c.norm_methods@ == p.norm_methods@
            &&& c.n_features == n_features
            &&& config_gen::rows_per_member(&c) == n_train
            &&& c.n_train_rows == n_train
            &&& !config_gen::permutes_values(&c)
        },
        classification_params(c, p, n_features, n_train, n_classes) ==> (config_gen::shifts_classes(&c) <==> p.class_shift
            && p.n_estimators > 1 && n_classes > 1),
        regression_params(c, p, n_features, n_train) ==> !config_gen::shifts_classes(&c),
{
}

} // verus!
