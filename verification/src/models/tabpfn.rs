//! TabPFN-3: configuration.

use vstd::prelude::*;

verus! {

/// The architecture of TabPFN-3.
#[derive(Clone, Copy, Debug)]
pub struct TabPfnConfig {
    pub embed_dim: usize,
    pub dist_embed_num_blocks: usize,
    pub dist_embed_num_heads: usize,
    pub dist_embed_num_inducing_points: usize,
    pub feature_group_size: usize,
    pub feat_agg_num_blocks: usize,
    pub feat_agg_num_heads: usize,
    pub feat_agg_num_cls_tokens: usize,
    pub nlayers: usize,
    pub icl_num_heads: usize,
    pub icl_num_kv_heads_test: Option<usize>,
    pub decoder_head_dim: usize,
    pub decoder_num_heads: usize,
    pub decoder_use_softmax_scaling: bool,
    pub ff_factor: usize,
    pub softmax_scaling_mlp_hidden_dim: usize,
    pub max_num_classes: usize,
    pub use_nan_indicators: bool,
}

impl TabPfnConfig {
    /// The published classifier.
    pub fn v3_default() -> (r: Self)
        ensures
            r.embed_dim == 128,
            r.dist_embed_num_blocks == 3,
            r.dist_embed_num_heads == 8,
            r.dist_embed_num_inducing_points == 128,
            r.feature_group_size == 3,
            r.feat_agg_num_blocks == 3,
            r.feat_agg_num_heads == 8,
            r.feat_agg_num_cls_tokens == 4,
            r.nlayers == 24,
            r.icl_num_heads == 8,
            r.icl_num_kv_heads_test == Some(1usize),
            r.decoder_head_dim == 64,
            r.decoder_num_heads == 6,
            r.decoder_use_softmax_scaling == true,
            r.ff_factor == 2,
            r.softmax_scaling_mlp_hidden_dim == 64,
            r.max_num_classes == 160,
            r.use_nan_indicators == true,
    {
        TabPfnConfig {
            embed_dim: 128,
            dist_embed_num_blocks: 3,
            dist_embed_num_heads: 8,
            dist_embed_num_inducing_points: 128,
            feature_group_size: 3,
            feat_agg_num_blocks: 3,
            feat_agg_num_heads: 8,
            feat_agg_num_cls_tokens: 4,
            nlayers: 24,
            icl_num_heads: 8,
            icl_num_kv_heads_test: Some(1usize),
            decoder_head_dim: 64,
            decoder_num_heads: 6,
            decoder_use_softmax_scaling: true,
            ff_factor: 2,
            softmax_scaling_mlp_hidden_dim: 64,
            max_num_classes: 160,
            use_nan_indicators: true,
        }
    }

    /// Width of a row's representation: the class tokens of all feature groups, side by side.
    pub fn icl_dim(&self) -> (r: usize)
        requires
            self.embed_dim * self.feat_agg_num_cls_tokens <= usize::MAX,
        ensures
            r == self.embed_dim * self.feat_agg_num_cls_tokens,
    {
        self.embed_dim * self.feat_agg_num_cls_tokens
    }

    /// Width of a cell's input: the grouped values, doubled where indicators of missing values
    /// stand beside them.
    pub fn cell_in_features(&self) -> (r: usize)
        requires
            self.use_nan_indicators ==> self.feature_group_size * 2 <= usize::MAX,
        ensures
            r == (if self.use_nan_indicators { self.feature_group_size * 2 } else { self.feature_group_size as int }),
    {
        if self.use_nan_indicators {
            self.feature_group_size * 2
        } else {
            self.feature_group_size
        }
    }
}

/// How the decoder reads the classes: the labels of the training rows are weighed `head_dim` at a
/// time.
#[derive(Debug, Clone, Copy, PartialEq, Eq, Structural)]
pub struct DecoderPlan {
    /// The labels that there are.
    pub width: usize,
    /// How many times `head_dim` labels are weighed.
    pub chunks: usize,
    /// The zeros behind the labels that fill the last time.
    pub padding: usize,
    /// The zeros behind the weights for classes that no training row has.
    pub unseen: usize,
}

/// How the decoder reads the classes, given the highest label and the number of classes.
pub fn decoder_plan(highest: usize, head_dim: usize, n_classes: usize) -> (r: DecoderPlan)
    requires
        head_dim > 0,
        highest + head_dim + 1 <= usize::MAX,
    ensures
        r.width == highest + 1,
        r.chunks * head_dim == r.width + r.padding,
        r.padding < head_dim,
        r.unseen == (if n_classes > r.width {
            n_classes - r.width
        } else {
            0
        }),
{
    let width: usize = highest + 1;
    let chunks: usize = (width + (head_dim - 1)) / head_dim;
    proof {
        vstd::arithmetic::div_mod::lemma_fundamental_div_mod(width + (head_dim - 1), head_dim as int);
        vstd::arithmetic::div_mod::lemma_mod_bound(width + (head_dim - 1), head_dim as int);
        vstd::arithmetic::mul::lemma_mul_is_commutative(head_dim as int, chunks as int);
    }
    let padded: usize = chunks * head_dim;
    DecoderPlan {
        width,
        chunks,
        padding: padded - width,
        unseen: if n_classes > width {
            n_classes - width
        } else {
            0
        },
    }
}

/// A plan is the only one: the labels are weighed as few times as they fit in.
pub proof fn law_fewest_chunks(width: int, head_dim: int, chunks: int, padding: int, other: int)
    requires
        0 < width,
        0 < head_dim,
        0 <= padding < head_dim,
        chunks * head_dim == width + padding,
        other * head_dim >= width,
    ensures
        chunks <= other,
{
    assert(chunks <= other) by (nonlinear_arith)
        requires
            0 <= padding < head_dim,
            chunks * head_dim == width + padding,
            other * head_dim >= width,
    ;
}

/// The head of keys that a query's head reads, where `kv_heads` of them serve `n_heads`: neighbours
/// share one.
pub fn shared_head(head: usize, n_heads: usize, kv_heads: usize) -> (r: usize)
    requires
        0 < kv_heads <= n_heads,
        n_heads % kv_heads == 0,
        head < n_heads,
    ensures
        r == head / ((n_heads / kv_heads) as usize),
        r < kv_heads,
{
    let repeat: usize = n_heads / kv_heads;
    proof {
        vstd::arithmetic::div_mod::lemma_fundamental_div_mod(n_heads as int, kv_heads as int);
        assert(repeat >= 1) by (nonlinear_arith)
            requires
                n_heads == kv_heads * repeat,
                n_heads >= 1,
        ;
        assert(head as int / (repeat as int) < kv_heads) by (nonlinear_arith)
            requires
                head < n_heads,
                n_heads == kv_heads * repeat,
                repeat >= 1,
        ;
    }
    head / repeat
}

/// Where only one head of keys serves, every query's head reads it; where all do, each reads its own.
pub proof fn law_shared_heads(head: int, n_heads: int)
    requires
        0 <= head < n_heads,
    ensures
        head / (n_heads / 1) == 0,
        head / (n_heads / n_heads) == head,
{
    vstd::arithmetic::div_mod::lemma_div_by_self(n_heads);
    vstd::arithmetic::div_mod::lemma_basic_div(head, n_heads);
}

} // verus!
