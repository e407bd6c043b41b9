//! Lag-Llama's inference: its lag features, and the cache that decoding appends to.
//!
//! Values are held as the bits of singles.

use vstd::arithmetic::div_mod;
use vstd::prelude::*;

use crate::layout;
use crate::models::weights;

verus! {

/// What the lag features of a model are made of.
#[derive(Debug)]
pub struct LagConfig {
    pub lags_seq: Vec<usize>,
    pub feature_size: usize,
    pub max_context_length: usize,
}

/// Whether `m` is the greatest of the lags, or zero where there are none.
pub open spec fn greatest(lags: Seq<usize>, m: usize) -> bool {
    &&& forall|i: int| 0 <= i < lags.len() ==> #[trigger] lags[i] <= m
    &&& lags.contains(m) || (lags.len() == 0 && m == 0)
}

/// The greatest lag.
pub fn max_lag(lags: &[usize]) -> (r: usize)
    ensures
        greatest(lags@, r),
{
    let mut m: usize = 0;
    let mut i: usize = 0;
    while i < lags.len()
        invariant
            i <= lags@.len(),
            forall|q: int| 0 <= q < i ==> #[trigger] lags@[q] <= m,
            lags@.take(i as int).contains(m) || (i == 0 && m == 0),
        decreases lags@.len() - i,
    {
        let ghost before = lags@.take(i as int);
        let ghost next = lags@.take(i + 1);
        let ghost had = m;
        if i == 0 || lags[i] > m {
            m = lags[i];
            assert(next[i as int] == m);
        } else {
            assert(before.contains(had));
            let ghost k = choose|k: int| 0 <= k < before.len() && before[k] == had;
            assert(next[k] == m);
        }
        i += 1;
    }
    assert(lags@.take(i as int) =~= lags@);
    m
}

/// The history that features look back into: zeros for the greatest lag and one more, and the values.
pub open spec fn history_of(max_lag: int, values: Seq<u32>) -> Seq<u32> {
    Seq::new((max_lag + 1) as nat, |i: int| 0u32) + values
}

/// The history that features look back into.
pub fn history(max_lag: usize, values: &[u32]) -> (r: Vec<u32>)
    requires
        max_lag < usize::MAX,
    ensures
        r@ == history_of(max_lag as int, values@),
{
    let mut out: Vec<u32> = Vec::new();
    while out.len() < max_lag + 1
        invariant
            max_lag < usize::MAX,
            out@.len() <= max_lag + 1,
            forall|i: int| 0 <= i < out@.len() ==> #[trigger] out@[i] == 0,
        decreases max_lag + 1 - out@.len(),
    {
        out.push(0);
    }
    assert(out@ =~= Seq::new((max_lag + 1) as nat, |i: int| 0u32));
    out.extend_from_slice(values);
    assert(out@ =~= history_of(max_lag as int, values@));
    out
}

/// Where the context starts in a history: at most so many values are used.
pub fn context_window(hist_len: usize, max_context_length: usize) -> (r: (usize, usize))
    ensures
        r.1 == (if hist_len < max_context_length {
            hist_len
        } else {
            max_context_length
        }),
        r.0 + r.1 == hist_len,
{
    if hist_len < max_context_length {
        (0, hist_len)
    } else {
        (hist_len - max_context_length, max_context_length)
    }
}

/// One feature of a step: the value that lies a lag back, and zero where there is none.
pub open spec fn feature(hist: Seq<u32>, lags: Seq<usize>, t: int, l: int) -> u32 {
    if l < lags.len() && 0 <= t - lags[l] < hist.len() {
        hist[t - lags[l]]
    } else {
        0
    }
}

/// The features of a step.
pub open spec fn features(hist: Seq<u32>, lags: Seq<usize>, feature_size: nat, t: int) -> Seq<u32> {
    Seq::new(feature_size, |l: int| feature(hist, lags, t, l))
}

/// The features of steps, one after the other.
pub open spec fn feature_rows(hist: Seq<u32>, lags: Seq<usize>, feature_size: nat, start: int, seq_len: nat) -> Seq<u32> {
    Seq::new(
        (seq_len * feature_size) as nat,
        |q: int| feature(hist, lags, start + q / (feature_size as int), q % (feature_size as int)),
    )
}

fn feature_value(hist: &[u32], lags: &[usize], t: usize, l: usize) -> (r: u32)
    ensures
        r == feature(hist@, lags@, t as int, l as int),
{
    if l < lags.len() && lags[l] <= t && t - lags[l] < hist.len() {
        hist[t - lags[l]]
    } else {
        0
    }
}

/// The features of a step.
pub fn build_one_feature(hist: &[u32], abs_t: usize, cfg: &LagConfig) -> (r: Vec<u32>)
    requires
        cfg.lags_seq@.len() <= cfg.feature_size,
    ensures
        r@ == features(hist@, cfg.lags_seq@, cfg.feature_size as nat, abs_t as int),
{
    let mut out: Vec<u32> = Vec::new();
    let mut l: usize = 0;
    while l < cfg.feature_size
        invariant
            l <= cfg.feature_size,
            out@.len() == l,
            forall|q: int| 0 <= q < l ==> #[trigger] out@[q] == feature(hist@, cfg.lags_seq@, abs_t as int, q),
        decreases cfg.feature_size - l,
    {
        out.push(feature_value(hist, cfg.lags_seq.as_slice(), abs_t, l));
        l += 1;
    }
    assert(out@ =~= features(hist@, cfg.lags_seq@, cfg.feature_size as nat, abs_t as int));
    out
}

/// The features of `seq_len` steps from `start` on.
pub fn build_feature_matrix(hist: &[u32], start: usize, seq_len: usize, cfg: &LagConfig) -> (r: Vec<u32>)
    requires
        cfg.lags_seq@.len() <= cfg.feature_size,
        start + seq_len <= usize::MAX,
    ensures
        r@ == feature_rows(hist@, cfg.lags_seq@, cfg.feature_size as nat, start as int, seq_len as nat),
{
    let size: usize = cfg.feature_size;
    let mut out: Vec<u32> = Vec::new();
    let mut t: usize = 0;
    assert(0 * size == 0) by (nonlinear_arith);
    while t < seq_len
        invariant
            t <= seq_len,
            start + seq_len <= usize::MAX,
            size == cfg.feature_size,
            out@.len() == t * size,
            forall|q: int|
                0 <= q < out@.len() ==> #[trigger] out@[q] == feature_rows(
                    hist@,
                    cfg.lags_seq@,
                    size as nat,
                    start as int,
                    seq_len as nat,
                )[q],
        decreases seq_len - t,
    {
        let mut l: usize = 0;
        while l < size
            invariant
                t < seq_len,
                start + seq_len <= usize::MAX,
                size == cfg.feature_size,
                l <= size,
                out@.len() == t * size + l,
                forall|q: int|
                    0 <= q < out@.len() ==> #[trigger] out@[q] == feature_rows(
                        hist@,
                        cfg.lags_seq@,
                        size as nat,
                        start as int,
                        seq_len as nat,
                    )[q],
            decreases size - l,
        {
            proof {
                layout::lemma_at2(t as int, l as int, size as int);
                layout::lemma_at2_bound(t as int, l as int, seq_len as int, size as int);
            }
            out.push(feature_value(hist, cfg.lags_seq.as_slice(), start + t, l));
            l += 1;
        }
        t += 1;
        assert((t - 1) * size + size == t * size) by (nonlinear_arith);
    }
    assert(out@ =~= feature_rows(hist@, cfg.lags_seq@, size as nat, start as int, seq_len as nat));
    out
}

/// A row of the features of steps is that of the one step.
pub proof fn law_rows_are_steps(
    hist: Seq<u32>,
    lags: Seq<usize>,
    feature_size: nat,
    start: int,
    seq_len: nat,
    t: int,
)
    requires
        0 <= t < seq_len,
        0 < feature_size,
    ensures
        0 <= t * feature_size,
        t * feature_size + feature_size <= seq_len * feature_size,
        feature_rows(hist, lags, feature_size, start, seq_len).subrange(
            t * feature_size,
            t * feature_size + feature_size,
        ) == features(hist, lags, feature_size, start + t),
{
    layout::lemma_at2_bound(t, 0, seq_len as int, feature_size as int);
    assert((t + 1) * feature_size == t * feature_size + feature_size) by (nonlinear_arith);
    let rows = feature_rows(hist, lags, feature_size, start, seq_len);
    let part = rows.subrange(t * feature_size, t * feature_size + feature_size);
    assert forall|l: int| 0 <= l < feature_size implies part[l] == features(
        hist,
        lags,
        feature_size,
        start + t,
    )[l] by {
        layout::lemma_at2(t, l, feature_size as int);
        assert(part[l] == rows[t * feature_size + l]);
    }
    assert(part =~= features(hist, lags, feature_size, start + t));
}

/// Features look back only: what is appended to a history does not change those of earlier steps.
pub proof fn law_features_look_back(hist: Seq<u32>, more: Seq<u32>, lags: Seq<usize>, feature_size: nat, t: int)
    requires
        0 <= t < hist.len(),
    ensures
        features(hist + more, lags, feature_size, t) == features(hist, lags, feature_size, t),
{
    assert(features(hist + more, lags, feature_size, t) =~= features(hist, lags, feature_size, t));
}

/// What is kept of the tokens so far: for every head its keys and its values, token after token.
#[derive(Debug)]
pub struct KvHeads {
    keys: Vec<Vec<u32>>,
    values: Vec<Vec<u32>>,
    head_dim: usize,
    tokens: usize,
}

/// The part of a row that belongs to a head.
pub open spec fn head_part(row: Seq<u32>, from: int, head_dim: int, h: int) -> Seq<u32> {
    row.subrange(from + h * head_dim, from + (h + 1) * head_dim)
}

impl KvHeads {
    /// The keys of a head.
    pub closed spec fn keys_of(&self, h: int) -> Seq<u32> {
        self.keys@[h]@
    }

    /// The values of a head.
    pub closed spec fn values_of(&self, h: int) -> Seq<u32> {
        self.values@[h]@
    }

    /// The number of heads.
    pub closed spec fn heads(&self) -> nat {
        self.keys@.len()
    }

    /// The width of a head.
    pub closed spec fn width(&self) -> nat {
        self.head_dim as nat
    }

    /// The number of tokens.
    pub closed spec fn count(&self) -> nat {
        self.tokens as nat
    }

    /// Every head has the keys and the values of all tokens.
    pub closed spec fn wf(&self) -> bool {
        &&& self.keys@.len() == self.values@.len()
        &&& forall|h: int|
            0 <= h < self.keys@.len() ==> (#[trigger] self.keys@[h])@.len() == self.tokens * self.head_dim
        &&& forall|h: int|
            0 <= h < self.values@.len() ==> (#[trigger] self.values@[h])@.len() == self.tokens * self.head_dim
    }

    /// Every head has the keys and the values of all tokens.
    pub proof fn law_heads_are_full(&self, h: int)
        requires
            self.wf(),
            0 <= h < self.heads(),
        ensures
            self.keys_of(h).len() == self.count() * self.width(),
            self.values_of(h).len() == self.count() * self.width(),
    {
        assert(self.keys@[h]@.len() == self.tokens * self.head_dim);
        assert(self.values@[h]@.len() == self.tokens * self.head_dim);
    }

    /// The keys and values of tokens, given head after head.
    pub fn from_flat(k: &[u32], v: &[u32], n_head: usize, head_dim: usize, tokens: usize) -> (r: Self)
        requires
            k@.len() == n_head * (tokens * head_dim),
            v@.len() == n_head * (tokens * head_dim),
        ensures
            r.wf(),
            r.heads() == n_head,
            r.width() == head_dim,
            r.count() == tokens,
            forall|h: int|
                0 <= h < n_head ==> #[trigger] r.keys_of(h) == head_part(k@, 0, tokens * head_dim, h),
            forall|h: int|
                0 <= h < n_head ==> #[trigger] r.values_of(h) == head_part(v@, 0, tokens * head_dim, h),
    {
        let keys: Vec<Vec<u32>> = split(k, n_head, Ghost((tokens * head_dim) as nat));
        let values: Vec<Vec<u32>> = split(v, n_head, Ghost((tokens * head_dim) as nat));
        let r = KvHeads { keys, values, head_dim, tokens };
        assert forall|h: int| 0 <= h < n_head implies #[trigger] r.keys_of(h) == head_part(
            k@,
            0,
            tokens * head_dim,
            h,
        ) && r.keys@[h]@.len() == tokens * head_dim by {
            lemma_part_len(k@.len() as int, n_head as int, tokens * head_dim, h);
            assert(keys@[h]@ == head_part(k@, 0, tokens * head_dim, h));
        }
        assert forall|h: int| 0 <= h < n_head implies #[trigger] r.values_of(h) == head_part(
            v@,
            0,
            tokens * head_dim,
            h,
        ) && r.values@[h]@.len() == tokens * head_dim by {
            lemma_part_len(v@.len() as int, n_head as int, tokens * head_dim, h);
            assert(values@[h]@ == head_part(v@, 0, tokens * head_dim, h));
        }
        assert forall|h: int| 0 <= h < r.keys@.len() implies (#[trigger] r.keys@[h])@.len() == r.tokens * r.head_dim by {
            assert(r.keys_of(h) == head_part(k@, 0, tokens * head_dim, h));
        }
        assert forall|h: int| 0 <= h < r.values@.len() implies (#[trigger] r.values@[h])@.len() == r.tokens
            * r.head_dim by {
            assert(r.values_of(h) == head_part(v@, 0, tokens * head_dim, h));
        }
        r
    }

    /// The number of tokens.
    pub fn len(&self) -> (r: usize)
        ensures
            r == self.count(),
    {
        self.tokens
    }

    /// The keys of a head.
    pub fn head_keys(&self, h: usize) -> (r: &Vec<u32>)
        requires
            self.wf(),
            h < self.heads(),
        ensures
            r@ == self.keys_of(h as int),
    {
        &self.keys[h]
    }

    /// The values of a head.
    pub fn head_values(&self, h: usize) -> (r: &Vec<u32>)
        requires
            self.wf(),
            h < self.heads(),
        ensures
            r@ == self.values_of(h as int),
    {
        &self.values[h]
    }

    /// Appends a token. Its row holds the queries of all heads, then their keys, then their values.
    pub fn append(&mut self, qkv: &[u32])
        requires
            old(self).wf(),
            old(self).count() < usize::MAX,
            qkv@.len() == 3 * (old(self).heads() * old(self).width()),
        ensures
            final(self).wf(),
            final(self).heads() == old(self).heads(),
            final(self).width() == old(self).width(),
            final(self).count() == old(self).count() + 1,
            forall|h: int|
                0 <= h < old(self).heads() ==> #[trigger] final(self).keys_of(h) == old(self).keys_of(h)
                    + head_part(
                    qkv@,
                    (old(self).heads() * old(self).width()) as int,
                    old(self).width() as int,
                    h,
                ),
            forall|h: int|
                0 <= h < old(self).heads() ==> #[trigger] final(self).values_of(h) == old(self).values_of(h)
                    + head_part(
                    qkv@,
                    (2 * (old(self).heads() * old(self).width())) as int,
                    old(self).width() as int,
                    h,
                ),
    {
        let n_head: usize = self.keys.len();
        let d: usize = self.head_dim;
        let total: usize = qkv.len();
        let third: usize = total / 3;
        let ghost n = n_head as int;
        let mut h: usize = 0;
        while h < n_head
            invariant
                h <= n_head == self.keys@.len() == self.values@.len(),
                n_head == old(self).keys@.len() == old(self).values@.len(),
                d == self.head_dim == old(self).head_dim,
                self.tokens == old(self).tokens,
                old(self).wf(),
                third == n_head * d,
                total == 3 * (n_head * d) == qkv@.len(),
                forall|q: int|
                    0 <= q < n_head ==> (#[trigger] self.keys@[q])@ == (if q < h {
                        old(self).keys@[q]@ + head_part(qkv@, third as int, d as int, q)
                    } else {
                        old(self).keys@[q]@
                    }),
                forall|q: int|
                    0 <= q < n_head ==> (#[trigger] self.values@[q])@ == (if q < h {
                        old(self).values@[q]@ + head_part(qkv@, 2 * third, d as int, q)
                    } else {
                        old(self).values@[q]@
                    }),
            decreases n_head - h,
        {
            proof {
                lemma_part_len(third as int, n_head as int, d as int, h as int);
            }
            let from: usize = third + h * d;
            push_part(&mut self.keys[h], qkv, from, from + d);
            let from: usize = 2 * third + h * d;
            push_part(&mut self.values[h], qkv, from, from + d);
            assert((h + 1) * d == h * d + d) by (nonlinear_arith);
            h += 1;
        }
        self.tokens = self.tokens + 1;
        proof {
            assert((self.tokens) * d == (self.tokens - 1) * d + d) by (nonlinear_arith);
            assert forall|q: int| 0 <= q < n_head implies (#[trigger] self.keys@[q])@.len() == self.tokens
                * self.head_dim by {
                lemma_part_len(third as int, n_head as int, d as int, q);
                assert(old(self).keys@[q]@.len() == old(self).tokens * old(self).head_dim);
            }
            assert forall|q: int| 0 <= q < n_head implies (#[trigger] self.values@[q])@.len() == self.tokens
                * self.head_dim by {
                lemma_part_len(third as int, n_head as int, d as int, q);
                assert(old(self).values@[q]@.len() == old(self).tokens * old(self).head_dim);
            }
            assert forall|q: int| 0 <= q < old(self).heads() implies #[trigger] self.keys_of(q) == old(self).keys_of(q)
                + head_part(qkv@, third as int, d as int, q) by {
                assert(self.keys@[q]@ == old(self).keys@[q]@ + head_part(qkv@, third as int, d as int, q));
            }
            assert forall|q: int| 0 <= q < old(self).heads() implies #[trigger] self.values_of(q) == old(
                self,
            ).values_of(q) + head_part(qkv@, 2 * third, d as int, q) by {
                assert(self.values@[q]@ == old(self).values@[q]@ + head_part(qkv@, 2 * third, d as int, q));
            }
        }
    }
}

fn push_part(out: &mut Vec<u32>, row: &[u32], from: usize, to: usize)
    requires
        from <= to <= row@.len(),
    ensures
        final(out)@ == old(out)@ + row@.subrange(from as int, to as int),
{
    out.extend_from_slice(vstd::slice::slice_subrange(row, from, to));
    assert(out@ =~= old(out)@ + row@.subrange(from as int, to as int));
}

proof fn lemma_part_len(total: int, n: int, d: int, h: int)
    requires
        total == n * d,
        0 <= h < n,
        0 <= d,
    ensures
        0 <= h * d,
        (h + 1) * d == h * d + d,
        (h + 1) * d <= total,
{
    assert(0 <= h * d && (h + 1) * d == h * d + d && (h + 1) * d <= n * d) by (nonlinear_arith)
        requires
            0 <= h < n,
            0 <= d,
    ;
}

fn split(flat: &[u32], n: usize, Ghost(width): Ghost<nat>) -> (r: Vec<Vec<u32>>)
    requires
        flat@.len() == n * width,
    ensures
        r@.len() == n,
        forall|h: int| 0 <= h < n ==> (#[trigger] r@[h])@ == head_part(flat@, 0, width as int, h),
{
    let mut out: Vec<Vec<u32>> = Vec::new();
    if n == 0 {
        return out;
    }
    let w: usize = flat.len() / n;
    proof {
        vstd::arithmetic::mul::lemma_mul_is_commutative(n as int, width as int);
        div_mod::lemma_div_by_multiple(width as int, n as int);
    }
    let mut h: usize = 0;
    let len: usize = flat.len();
    while h < n
        invariant
            h <= n,
            w == width,
            len == flat@.len() == n * width,
            out@.len() == h,
            forall|q: int| 0 <= q < h ==> (#[trigger] out@[q])@ == head_part(flat@, 0, width as int, q),
        decreases n - h,
    {
        proof {
            lemma_part_len(flat@.len() as int, n as int, width as int, h as int);
        }
        let from: usize = h * w;
        let mut part: Vec<u32> = Vec::new();
        push_part(&mut part, flat, from, from + w);
        assert(part@ =~= head_part(flat@, 0, width as int, h as int));
        out.push(part);
        h += 1;
    }
    out
}

/// The names of the weights outside the blocks.
pub open spec fn outer_names() -> Seq<Seq<char>> {
    seq!["enc.wte.weight"@, "enc.wte.bias"@, "norm_f.weight"@, "head.mu.weight"@, "head.mu.bias"@]
}

/// The names of the weights of a block.
pub open spec fn block_leaves() -> Seq<Seq<char>> {
    seq![
        "attn_q.weight"@,
        "attn_kv.weight"@,
        "rms1.weight"@,
        "rms2.weight"@,
        "attn_c.weight"@,
        "mlp_fc1.weight"@,
        "mlp_fc2.weight"@,
        "mlp_proj.weight"@,
    ]
}

/// The names of all weights.
pub fn weight_names(n_layer: usize) -> (r: Vec<String>)
    ensures
        weights::views(r@) == outer_names() + weights::block_names("blk."@, block_leaves(), n_layer as nat),
{
    let mut out: Vec<String> = Vec::new();
    let outer: Vec<&str> = vec!["enc.wte.weight", "enc.wte.bias", "norm_f.weight", "head.mu.weight", "head.mu.bias"];
    weights::push_names(&mut out, outer.as_slice());
    assert(weights::str_views(outer@) =~= outer_names());
    assert(weights::views(out@) =~= outer_names());
    let leaves: Vec<&str> = vec![
        "attn_q.weight",
        "attn_kv.weight",
        "rms1.weight",
        "rms2.weight",
        "attn_c.weight",
        "mlp_fc1.weight",
        "mlp_fc2.weight",
        "mlp_proj.weight",
    ];
    assert(weights::str_views(leaves@) =~= block_leaves());
    weights::push_block_names(&mut out, "blk.", leaves.as_slice(), n_layer);
    out
}

/// A feature of step `k` of a series is the value that lies its lag back, and zero where the lag goes
/// back behind the series or there is no lag for it.
pub proof fn law_features_are_lagged_values(values: Seq<u32>, lags: Seq<usize>, max_lag: usize, size: nat, k: int, l: int)
    requires
        greatest(lags, max_lag),
        0 <= k < values.len(),
        0 <= l < size,
    ensures
        history_of(max_lag as int, values).len() == max_lag + 1 + values.len(),
        ({
            let f = features(history_of(max_lag as int, values), lags, size, max_lag + 1 + k);
            &&& f.len() == size
            &&& l < lags.len() && lags[l] <= k ==> f[l] == values[k - lags[l]]
            &&& l < lags.len() && lags[l] > k ==> f[l] == 0
            &&& l >= lags.len() ==> f[l] == 0
        }),
{
}

/// The part of a head is as wide as a head, and starts where the heads before it end.
pub proof fn law_head_parts(row: Seq<u32>, from: int, head_dim: int, h: int, i: int)
    requires
        0 <= from,
        0 <= h,
        0 <= i < head_dim,
        from + (h + 1) * head_dim <= row.len(),
    ensures
        head_part(row, from, head_dim, h).len() == head_dim,
        head_part(row, from, head_dim, h)[i] == row[from + h * head_dim + i],
{
    assert((h + 1) * head_dim == h * head_dim + head_dim && h * head_dim >= 0) by (nonlinear_arith)
        requires
            0 <= h,
            0 <= head_dim,
    ;
}

/// The names of the weights.
pub proof fn law_weight_names()
    ensures
        outer_names().len() == 5,
        outer_names()[0] == "enc.wte.weight"@,
        outer_names()[1] == "enc.wte.bias"@,
        outer_names()[2] == "norm_f.weight"@,
        outer_names()[3] == "head.mu.weight"@,
        outer_names()[4] == "head.mu.bias"@,
        block_leaves().len() == 8,
        block_leaves()[0] == "attn_q.weight"@,
        block_leaves()[1] == "attn_kv.weight"@,
        block_leaves()[2] == "rms1.weight"@,
        block_leaves()[3] == "rms2.weight"@,
        block_leaves()[4] == "attn_c.weight"@,
        block_leaves()[5] == "mlp_fc1.weight"@,
        block_leaves()[6] == "mlp_fc2.weight"@,
        block_leaves()[7] == "mlp_proj.weight"@,
{
}

} // verus!
