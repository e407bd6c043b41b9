//! Moment's inference: how a series is cut into patches, and the bias of relative positions.
//!
//! Values are held as the bits of singles.

use vstd::prelude::*;

use crate::layout;
use crate::models::weights;

verus! {

/// A context of the model's length: the last values, with zeros in front where there are too few.
pub open spec fn fitted(values: Seq<u32>, seq_len: nat) -> Seq<u32> {
    if values.len() < seq_len {
        Seq::new((seq_len - values.len()) as nat, |i: int| 0u32) + values
    } else {
        values.skip(values.len() - seq_len)
    }
}

/// A context of the model's length.
pub fn fit_context(values: &[u32], seq_len: usize) -> (r: Vec<u32>)
    ensures
        r@ == fitted(values@, seq_len as nat),
        r@.len() == seq_len,
{
    let n: usize = values.len();
    let mut out: Vec<u32> = Vec::new();
    if n < seq_len {
        while out.len() < seq_len - n
            invariant
                n < seq_len,
                out@.len() <= seq_len - n,
                forall|i: int| 0 <= i < out@.len() ==> #[trigger] out@[i] == 0,
            decreases seq_len - n - out@.len(),
        {
            out.push(0);
        }
        assert(out@ =~= Seq::new((seq_len - n) as nat, |i: int| 0u32));
        out.extend_from_slice(values);
        assert(out@ =~= fitted(values@, seq_len as nat));
    } else {
        out.extend_from_slice(vstd::slice::slice_subrange(values, n - seq_len, n));
        assert(out@ =~= fitted(values@, seq_len as nat));
    }
    out
}

/// How many patches are forecast for a horizon.
pub fn forecast_patches(horizon: usize, patch_len: usize) -> (r: usize)
    requires
        patch_len > 0,
        horizon + patch_len <= usize::MAX,
    ensures
        r == (horizon + patch_len - 1) / (patch_len as int),
{
    (horizon + patch_len - 1) / patch_len
}

/// Patch `i`: `patch_len` values from `i` strides on, with zeros behind the last one.
pub open spec fn patch(x: Seq<u32>, patch_len: nat, stride: int, i: int) -> Seq<u32> {
    Seq::new(
        patch_len,
        |j: int|
            if i * stride + j < x.len() {
                x[i * stride + j]
            } else {
                0u32
            },
    )
}

/// The patches of a series.
pub fn patchify(x: &[u32], patch_len: usize, stride: usize, num_patches: usize) -> (r: Vec<Vec<u32>>)
    requires
        forall|i: int| 0 <= i < num_patches ==> #[trigger] (i * stride) <= x@.len(),
        x@.len() + patch_len <= usize::MAX,
    ensures
        r@.len() == num_patches,
        forall|i: int|
            0 <= i < num_patches ==> (#[trigger] r@[i])@ == patch(x@, patch_len as nat, stride as int, i),
{
    let mut out: Vec<Vec<u32>> = Vec::new();
    let mut i: usize = 0;
    let len: usize = x.len();
    while i < num_patches
        invariant
            i <= num_patches,
            len == x@.len(),
            len + patch_len <= usize::MAX,
            forall|q: int| 0 <= q < num_patches ==> #[trigger] (q * stride) <= x@.len(),
            out@.len() == i,
            forall|q: int|
                0 <= q < i ==> (#[trigger] out@[q])@ == patch(x@, patch_len as nat, stride as int, q),
        decreases num_patches - i,
    {
        assert((i * stride) <= x@.len());
        assert(0 <= i * stride) by (nonlinear_arith);
        let start: usize = i * stride;
        let mut p: Vec<u32> = Vec::new();
        let mut j: usize = 0;
        while j < patch_len
            invariant
                j <= patch_len,
                len == x@.len(),
                len + patch_len <= usize::MAX,
                start == i * stride,
                start <= len,
                p@.len() == j,
                forall|q: int|
                    0 <= q < j ==> #[trigger] p@[q] == patch(x@, patch_len as nat, stride as int, i as int)[q],
            decreases patch_len - j,
        {
            p.push(if start + j < len { x[start + j] } else { 0 });
            j += 1;
        }
        assert(p@ =~= patch(x@, patch_len as nat, stride as int, i as int));
        out.push(p);
        i += 1;
    }
    out
}

/// Patches that lie side by side make up the series.
pub proof fn law_patches_make_up_the_series(x: Seq<u32>, patch_len: nat, q: int)
    requires
        patch_len > 0,
        0 <= q < x.len(),
    ensures
        patch(x, patch_len, patch_len as int, q / (patch_len as int))[q % (patch_len as int)] == x[q],
{
    vstd::arithmetic::div_mod::lemma_mod_bound(q, patch_len as int);
    vstd::arithmetic::div_mod::lemma_fundamental_div_mod(q, patch_len as int);
    vstd::arithmetic::mul::lemma_mul_is_commutative(patch_len as int, q / (patch_len as int));
}

/// The bucket of a relative position.
#[derive(Debug, Clone, Copy, PartialEq, Eq, Structural)]
pub enum Bucket {
    /// A position that is near has a bucket of its own.
    Near(usize),
    /// Positions that are far share buckets, by the logarithm of their distance.
    Far {
        /// The first bucket of the direction.
        base: usize,
        /// How far the position is.
        distance: usize,
        /// The distance at which positions start to share buckets.
        max_exact: usize,
        /// The buckets of the direction.
        buckets: usize,
    },
}

/// How far a position is, as buckets count it: in one direction only, later positions are not far.
pub open spec fn distance_of(relative: int, bidirectional: bool) -> int {
    if !bidirectional {
        if relative < 0 {
            -relative
        } else {
            0
        }
    } else if relative < 0 {
        -relative
    } else {
        relative
    }
}

/// The buckets of one direction.
pub open spec fn direction_buckets(bidirectional: bool, num_buckets: int) -> int {
    if bidirectional {
        num_buckets / 2
    } else {
        num_buckets
    }
}

/// The first bucket of a position's direction.
pub open spec fn direction_base(relative: int, bidirectional: bool, num_buckets: int) -> int {
    if bidirectional && relative > 0 {
        num_buckets / 2
    } else {
        0
    }
}

/// The bucket of a relative position.
pub open spec fn bucket_of(relative: int, bidirectional: bool, num_buckets: int) -> Bucket {
    let n = distance_of(relative, bidirectional);
    let buckets = direction_buckets(bidirectional, num_buckets);
    let base = direction_base(relative, bidirectional, num_buckets);
    if n < buckets / 2 {
        Bucket::Near((base + n) as usize)
    } else {
        Bucket::Far {
            base: base as usize,
            distance: n as usize,
            max_exact: (buckets / 2) as usize,
            buckets: buckets as usize,
        }
    }
}

/// The bucket of a relative position.
pub fn t5_relative_bucket(relative: i64, bidirectional: bool, num_buckets: usize) -> (r: Bucket)
    requires
        -0x7fff_ffff <= relative <= 0x7fff_ffff,
    ensures
        r == bucket_of(relative as int, bidirectional, num_buckets as int),
{
    let n: usize = if relative < 0 {
        (-relative) as usize
    } else if bidirectional {
        relative as usize
    } else {
        0
    };
    let buckets: usize = if bidirectional { num_buckets / 2 } else { num_buckets };
    let base: usize = if bidirectional && relative > 0 { num_buckets / 2 } else { 0 };
    let max_exact: usize = buckets / 2;
    if n < max_exact {
        Bucket::Near(base + n)
    } else {
        Bucket::Far { base, distance: n, max_exact, buckets }
    }
}

/// The bucket, given how many steps of the logarithm a far position is behind the near ones; the last
/// bucket takes all that is farther.
pub open spec fn resolved(b: Bucket, steps: int) -> int {
    match b {
        Bucket::Near(i) => i as int,
        Bucket::Far { base, max_exact, buckets, .. } => base + (if max_exact + steps < buckets {
            max_exact + steps
        } else {
            buckets - 1
        }),
    }
}

/// The bucket, given how many steps of the logarithm a far position is behind the near ones.
pub fn resolve(b: Bucket, steps: usize) -> (r: usize)
    requires
        b matches Bucket::Far { base, buckets, .. } ==> buckets >= 1 && base + buckets <= usize::MAX,
    ensures
        r == resolved(b, steps as int),
{
    match b {
        Bucket::Near(i) => i,
        Bucket::Far { base, max_exact, buckets, .. } => if max_exact < buckets && steps < buckets - max_exact {
            base + (max_exact + steps)
        } else {
            base + (buckets - 1)
        },
    }
}

/// Every bucket is one of those there are, and the two directions share none.
pub proof fn law_buckets_in_range(relative: int, num_buckets: int, steps: int)
    requires
        num_buckets >= 2,
        0 <= steps,
        -0x7fff_ffff <= relative <= 0x7fff_ffff,
        num_buckets <= usize::MAX,
    ensures
        0 <= resolved(bucket_of(relative, true, num_buckets), steps) < num_buckets,
        relative > 0 <==> resolved(bucket_of(relative, true, num_buckets), steps) >= num_buckets / 2,
{
}

/// The buckets ahead are those back, moved by half of them, where the logarithm of a distance is the
/// same in both directions.
pub proof fn law_buckets_mirror(relative: int, num_buckets: int, steps: int)
    requires
        num_buckets >= 2,
        0 <= steps,
        0 < relative <= 0x7fff_ffff,
        num_buckets <= usize::MAX,
    ensures
        resolved(bucket_of(relative, true, num_buckets), steps) == num_buckets / 2 + resolved(
            bucket_of(-relative, true, num_buckets),
            steps,
        ),
{
}

/// Near positions have buckets of their own: the bucket of one back is its distance.
pub proof fn law_near_buckets(distance: int, num_buckets: int, steps: int)
    requires
        0 <= distance < num_buckets / 2 / 2,
        distance <= 0x7fff_ffff,
        num_buckets <= usize::MAX,
    ensures
        resolved(bucket_of(-distance, true, num_buckets), steps) == distance,
{
}

/// Farther positions never come before nearer ones, where the steps of the logarithm do not fall.
pub proof fn law_buckets_ordered(near: int, far: int, num_buckets: int, near_steps: int, far_steps: int)
    requires
        num_buckets >= 2,
        0 <= near <= far <= 0x7fff_ffff,
        0 <= near_steps <= far_steps,
        num_buckets <= usize::MAX,
    ensures
        resolved(bucket_of(-near, true, num_buckets), near_steps) <= resolved(
            bucket_of(-far, true, num_buckets),
            far_steps,
        ) < num_buckets / 2,
{
}

/// The bias of every head for every pair of positions: that of the bucket of their distance.
/// `buckets` lists the buckets of all distances, from the farthest back to the farthest ahead.
pub open spec fn bias_of(bias: Seq<u32>, buckets: Seq<usize>, n_heads: int, seq_len: int) -> Seq<u32> {
    Seq::new(
        (n_heads * seq_len * seq_len) as nat,
        |q: int|
            {
                let head = (q / seq_len) / seq_len;
                let query = (q / seq_len) % seq_len;
                let key = q % seq_len;
                bias[buckets[key - query + seq_len - 1] * n_heads + head]
            },
    )
}

/// The bias of every head for every pair of positions.
pub fn rel_bias(bias: &[u32], buckets: &[usize], n_heads: usize, seq_len: usize) -> (r: Vec<u32>)
    requires
        seq_len > 0,
        buckets@.len() == 2 * seq_len - 1,
        forall|i: int|
            0 <= i < buckets@.len() ==> (#[trigger] buckets@[i]) * n_heads + n_heads <= bias@.len(),
    ensures
        r@ == bias_of(bias@, buckets@, n_heads as int, seq_len as int),
{
    let len: usize = bias.len();
    let n: usize = buckets.len();
    let mut out: Vec<u32> = Vec::new();
    let mut head: usize = 0;
    assert(0 * seq_len * seq_len == 0) by (nonlinear_arith);
    while head < n_heads
        invariant
            head <= n_heads,
            seq_len > 0,
            len == bias@.len(),
            n == buckets@.len() == 2 * seq_len - 1,
            forall|i: int|
                0 <= i < buckets@.len() ==> (#[trigger] buckets@[i]) * n_heads + n_heads <= bias@.len(),
            out@.len() == head * seq_len * seq_len,
            forall|q: int|
                0 <= q < out@.len() ==> #[trigger] out@[q] == bias_of(
                    bias@,
                    buckets@,
                    n_heads as int,
                    seq_len as int,
                )[q],
        decreases n_heads - head,
    {
        let mut query: usize = 0;
        while query < seq_len
            invariant
                head < n_heads,
                query <= seq_len,
                len == bias@.len(),
                n == buckets@.len() == 2 * seq_len - 1,
                forall|i: int|
                    0 <= i < buckets@.len() ==> (#[trigger] buckets@[i]) * n_heads + n_heads <= bias@.len(),
                out@.len() == (head * seq_len + query) * seq_len,
                forall|q: int|
                    0 <= q < out@.len() ==> #[trigger] out@[q] == bias_of(
                        bias@,
                        buckets@,
                        n_heads as int,
                        seq_len as int,
                    )[q],
            decreases seq_len - query,
        {
            let mut key: usize = 0;
            while key < seq_len
                invariant
                    head < n_heads,
                    query < seq_len,
                    key <= seq_len,
                    len == bias@.len(),
                    n == buckets@.len() == 2 * seq_len - 1,
                    forall|i: int|
                        0 <= i < buckets@.len() ==> (#[trigger] buckets@[i]) * n_heads + n_heads <= bias@.len(),
                    out@.len() == (head * seq_len + query) * seq_len + key,
                    forall|q: int|
                        0 <= q < out@.len() ==> #[trigger] out@[q] == bias_of(
                            bias@,
                            buckets@,
                            n_heads as int,
                            seq_len as int,
                        )[q],
                decreases seq_len - key,
            {
                proof {
                    layout::lemma_at3(head as int, query as int, key as int, seq_len as int, seq_len as int);
                    layout::lemma_at3_bound(
                        head as int,
                        query as int,
                        key as int,
                        n_heads as int,
                        seq_len as int,
                        seq_len as int,
                    );
                }
                let at: usize = (seq_len - 1 - query) + key;
                let b: usize = buckets[at];
                assert(buckets@[at as int] * n_heads + n_heads <= bias@.len());
                assert(0 <= b * n_heads) by (nonlinear_arith);
                out.push(bias[b * n_heads + head]);
                key += 1;
            }
            query += 1;
            assert((head * seq_len + query) * seq_len == (head * seq_len + (query - 1)) * seq_len + seq_len)
                by (nonlinear_arith);
        }
        head += 1;
        assert(((head - 1) * seq_len + seq_len) * seq_len == head * seq_len * seq_len) by (nonlinear_arith);
    }
    assert(out@ =~= bias_of(bias@, buckets@, n_heads as int, seq_len as int));
    out
}

/// The names of the weights outside the blocks.
pub open spec fn outer_names() -> Seq<Seq<char>> {
    seq![
        "patch_embed.weight"@,
        "pos_embed.pe"@,
        "mask_embed"@,
        "blk.0.attn_rel_bias.weight"@,
        "norm_f.weight"@,
        "head.weight"@,
        "head.bias"@,
    ]
}

/// The names of the weights of a block.
pub open spec fn block_leaves() -> Seq<Seq<char>> {
    seq![
        "attn_q.weight"@,
        "attn_k.weight"@,
        "attn_v.weight"@,
        "attn_o.weight"@,
        "attn_norm.weight"@,
        "ffn_wi0.weight"@,
        "ffn_wi1.weight"@,
        "ffn_wo.weight"@,
        "ffn_norm.weight"@,
    ]
}

/// The names of all weights.
pub fn weight_names(n_layers: usize) -> (r: Vec<String>)
    ensures
        weights::views(r@) == outer_names() + weights::block_names("blk."@, block_leaves(), n_layers as nat),
{
    let mut out: Vec<String> = Vec::new();
    let outer: Vec<&str> = vec![
        "patch_embed.weight",
        "pos_embed.pe",
        "mask_embed",
        "blk.0.attn_rel_bias.weight",
        "norm_f.weight",
        "head.weight",
        "head.bias",
    ];
    weights::push_names(&mut out, outer.as_slice());
    assert(weights::str_views(outer@) =~= outer_names());
    assert(weights::views(out@) =~= outer_names());
    let leaves: Vec<&str> = vec![
        "attn_q.weight",
        "attn_k.weight",
        "attn_v.weight",
        "attn_o.weight",
        "attn_norm.weight",
        "ffn_wi0.weight",
        "ffn_wi1.weight",
        "ffn_wo.weight",
        "ffn_norm.weight",
    ];
    assert(weights::str_views(leaves@) =~= block_leaves());
    weights::push_block_names(&mut out, "blk.", leaves.as_slice(), n_layers);
    out
}

/// The context ends in the latest values: `k` steps from its end stands the value `k` steps from the
/// end of the series, and zero where the series is not that long.
pub proof fn law_context_keeps_the_latest(values: Seq<u32>, seq_len: nat, k: int)
    requires
        0 <= k < seq_len,
    ensures
        fitted(values, seq_len).len() == seq_len,
        k < values.len() ==> fitted(values, seq_len)[seq_len - 1 - k] == values[values.len() - 1 - k],
        k >= values.len() ==> fitted(values, seq_len)[seq_len - 1 - k] == 0,
{
}

/// Patch `i` starts `i` strides into the series, and is zero behind its end.
pub proof fn law_patches_start_at_strides(x: Seq<u32>, patch_len: nat, stride: int, i: int, j: int)
    requires
        0 <= i,
        0 <= stride,
        0 <= j < patch_len,
    ensures
        patch(x, patch_len, stride, i).len() == patch_len,
        i * stride + j < x.len() ==> patch(x, patch_len, stride, i)[j] == x[i * stride + j],
        i * stride + j >= x.len() ==> patch(x, patch_len, stride, i)[j] == 0,
{
}

/// The bias of a head between a query and a key is that of the bucket of how far the key is ahead.
pub proof fn law_bias_by_distance(
    bias: Seq<u32>,
    buckets: Seq<usize>,
    n_heads: int,
    seq_len: int,
    head: int,
    query: int,
    key: int,
)
    requires
        0 <= head < n_heads,
        0 <= query < seq_len,
        0 <= key < seq_len,
    ensures
        bias_of(bias, buckets, n_heads, seq_len).len() == n_heads * seq_len * seq_len,
        bias_of(bias, buckets, n_heads, seq_len)[(head * seq_len + query) * seq_len + key] == bias[buckets[(key - query)
            + (seq_len - 1)] * n_heads + head],
{
    layout::lemma_at3(head, query, key, seq_len, seq_len);
    layout::lemma_at3_bound(head, query, key, n_heads, seq_len, seq_len);
}

/// A far position keeps its distance, and shares the bucket that lies its steps behind the near ones,
/// or the last one of its direction.
pub proof fn law_far_buckets(distance: int, num_buckets: int, steps: int)
    requires
        num_buckets >= 2,
        num_buckets / 2 / 2 <= distance <= 0x7fff_ffff,
        0 <= steps,
        num_buckets <= usize::MAX,
    ensures
        bucket_of(-distance, true, num_buckets) matches Bucket::Far { distance: d, max_exact, buckets, .. } && d
            == distance && max_exact == num_buckets / 2 / 2 && buckets == num_buckets / 2,
        num_buckets / 2 / 2 + steps < num_buckets / 2 ==> resolved(bucket_of(-distance, true, num_buckets), steps)
            == num_buckets / 2 / 2 + steps,
        num_buckets / 2 / 2 + steps >= num_buckets / 2 ==> resolved(bucket_of(-distance, true, num_buckets), steps)
            == num_buckets / 2 - 1,
{
}

/// In one direction only, all buckets are for positions back, and all ahead share the first.
pub proof fn law_buckets_of_one_direction(distance: int, num_buckets: int, steps: int)
    requires
        num_buckets >= 2,
        0 <= distance <= 0x7fff_ffff,
        0 <= steps,
        num_buckets <= usize::MAX,
    ensures
        resolved(bucket_of(distance, false, num_buckets), steps) == 0,
        distance < num_buckets / 2 ==> resolved(bucket_of(-distance, false, num_buckets), steps) == distance,
        distance >= num_buckets / 2 ==> (bucket_of(-distance, false, num_buckets) matches Bucket::Far {
            distance: d,
            max_exact,
            buckets,
            base,
        } && d == distance && max_exact == num_buckets / 2 && buckets == num_buckets && base == 0),
{
}

/// The names of the weights.
pub proof fn law_weight_names()
    ensures
        outer_names().len() == 7,
        outer_names()[0] == "patch_embed.weight"@,
        outer_names()[1] == "pos_embed.pe"@,
        outer_names()[2] == "mask_embed"@,
        outer_names()[3] == "blk.0.attn_rel_bias.weight"@,
        outer_names()[4] == "norm_f.weight"@,
        outer_names()[5] == "head.weight"@,
        outer_names()[6] == "head.bias"@,
        block_leaves().len() == 9,
        block_leaves()[0] == "attn_q.weight"@,
        block_leaves()[1] == "attn_k.weight"@,
        block_leaves()[2] == "attn_v.weight"@,
        block_leaves()[3] == "attn_o.weight"@,
        block_leaves()[4] == "attn_norm.weight"@,
        block_leaves()[5] == "ffn_wi0.weight"@,
        block_leaves()[6] == "ffn_wi1.weight"@,
        block_leaves()[7] == "ffn_wo.weight"@,
        block_leaves()[8] == "ffn_norm.weight"@,
{
}

} // verus!
