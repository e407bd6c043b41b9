//! The names of the weights that the models of tables load.

use vstd::prelude::*;

use crate::models::mitra::{MitraConfig, Task};
use crate::models::tabdpt::TabDptConfig;
use crate::models::tabfm_infer::InferConfig;
use crate::models::tabicl::TabIclConfig;
use crate::models::tabpfn::TabPfnConfig;
use crate::models::weights;

verus! {

/// The weights of Mitra in front of its blocks.
pub open spec fn mitra_first() -> Seq<Seq<char>> {
    seq![
        "x_embed.weight"@,
        "x_embed.bias"@,
        "y_embed.weight"@,
    ]
}

fn push_mitra_first(out: &mut Vec<String>)
    ensures
        weights::views(final(out)@) == weights::views(old(out)@) + mitra_first(),
{
    let names: Vec<&str> = vec![
        "x_embed.weight",
        "x_embed.bias",
        "y_embed.weight",
    ];
    assert(weights::str_views(names@) =~= mitra_first());
    weights::push_names(out, names.as_slice());
}

/// The weight that only the regressor has.
pub open spec fn mitra_bias() -> Seq<Seq<char>> {
    seq![
        "y_embed.bias"@,
    ]
}

fn push_mitra_bias(out: &mut Vec<String>)
    ensures
        weights::views(final(out)@) == weights::views(old(out)@) + mitra_bias(),
{
    let names: Vec<&str> = vec![
        "y_embed.bias",
    ];
    assert(weights::str_views(names@) =~= mitra_bias());
    weights::push_names(out, names.as_slice());
}

/// The weight of the labels that are asked for.
pub open spec fn mitra_mask() -> Seq<Seq<char>> {
    seq![
        "y_mask.weight"@,
    ]
}

fn push_mitra_mask(out: &mut Vec<String>)
    ensures
        weights::views(final(out)@) == weights::views(old(out)@) + mitra_mask(),
{
    let names: Vec<&str> = vec![
        "y_mask.weight",
    ];
    assert(weights::str_views(names@) =~= mitra_mask());
    weights::push_names(out, names.as_slice());
}

/// The weights of a block of Mitra.
pub open spec fn mitra_block() -> Seq<Seq<char>> {
    seq![
        "attn_row.q.weight"@,
        "attn_row.q.bias"@,
        "attn_row.k.weight"@,
        "attn_row.k.bias"@,
        "attn_row.v.weight"@,
        "attn_row.v.bias"@,
        "attn_row.o.weight"@,
        "attn_row.o.bias"@,
        "attn_feat.q.weight"@,
        "attn_feat.q.bias"@,
        "attn_feat.k.weight"@,
        "attn_feat.k.bias"@,
        "attn_feat.v.weight"@,
        "attn_feat.v.bias"@,
        "attn_feat.o.weight"@,
        "attn_feat.o.bias"@,
        "ln1.weight"@,
        "ln1.bias"@,
        "ln2.weight"@,
        "ln2.bias"@,
        "ln3.weight"@,
        "ln3.bias"@,
        "ln4.weight"@,
        "ln4.bias"@,
        "mlp1_fc1.weight"@,
        "mlp1_fc1.bias"@,
        "mlp1_fc2.weight"@,
        "mlp1_fc2.bias"@,
        "mlp2_fc1.weight"@,
        "mlp2_fc1.bias"@,
        "mlp2_fc2.weight"@,
        "mlp2_fc2.bias"@,
    ]
}

fn push_mitra_block(out: &mut Vec<String>)
    ensures
        weights::views(final(out)@) == weights::views(old(out)@) + mitra_block(),
{
    let names: Vec<&str> = vec![
        "attn_row.q.weight",
        "attn_row.q.bias",
        "attn_row.k.weight",
        "attn_row.k.bias",
        "attn_row.v.weight",
        "attn_row.v.bias",
        "attn_row.o.weight",
        "attn_row.o.bias",
        "attn_feat.q.weight",
        "attn_feat.q.bias",
        "attn_feat.k.weight",
        "attn_feat.k.bias",
        "attn_feat.v.weight",
        "attn_feat.v.bias",
        "attn_feat.o.weight",
        "attn_feat.o.bias",
        "ln1.weight",
        "ln1.bias",
        "ln2.weight",
        "ln2.bias",
        "ln3.weight",
        "ln3.bias",
        "ln4.weight",
        "ln4.bias",
        "mlp1_fc1.weight",
        "mlp1_fc1.bias",
        "mlp1_fc2.weight",
        "mlp1_fc2.bias",
        "mlp2_fc1.weight",
        "mlp2_fc1.bias",
        "mlp2_fc2.weight",
        "mlp2_fc2.bias",
    ];
    assert(weights::str_views(names@) =~= mitra_block());
    weights::push_names(out, names.as_slice());
}

fn mitra_block_leaves() -> (r: Vec<String>)
    ensures
        weights::views(r@) == mitra_block(),
{
    let mut out: Vec<String> = Vec::new();
    push_mitra_block(&mut out);
    assert(weights::views(out@) =~= mitra_block());
    out
}

/// The weights of Mitra behind its blocks.
pub open spec fn mitra_last() -> Seq<Seq<char>> {
    seq![
        "norm_f.weight"@,
        "norm_f.bias"@,
        "head.weight"@,
        "head.bias"@,
    ]
}

fn push_mitra_last(out: &mut Vec<String>)
    ensures
        weights::views(final(out)@) == weights::views(old(out)@) + mitra_last(),
{
    let names: Vec<&str> = vec![
        "norm_f.weight",
        "norm_f.bias",
        "head.weight",
        "head.bias",
    ];
    assert(weights::str_views(names@) =~= mitra_last());
    weights::push_names(out, names.as_slice());
}

/// The weights of Mitra.
pub fn mitra_weights(config: &MitraConfig) -> (r: Vec<String>)
    ensures
        weights::views(r@) == mitra_first() + (if config.task == Task::Regression {
            mitra_bias()
        } else {
            Seq::empty()
        }) + mitra_mask() + weights::block_names("blk."@, mitra_block(), config.n_layers as nat) + mitra_last(),
{
    let mut out: Vec<String> = Vec::new();
    push_mitra_first(&mut out);
    assert(weights::views(out@) =~= mitra_first());
    if config.task == Task::Regression {
        push_mitra_bias(&mut out);
    } else {
        assert(weights::views(out@) =~= weights::views(out@) + Seq::<Seq<char>>::empty());
    }
    push_mitra_mask(&mut out);
    weights::push_blocks(&mut out, "blk.", &mitra_block_leaves(), config.n_layers);
    push_mitra_last(&mut out);
    out
}

/// The weights of TabDPT in front of its blocks.
pub open spec fn tabdpt_first() -> Seq<Seq<char>> {
    seq![
        "encoder.weight"@,
        "encoder.bias"@,
        "thinking_embed"@,
    ]
}

fn push_tabdpt_first(out: &mut Vec<String>)
    ensures
        weights::views(final(out)@) == weights::views(old(out)@) + tabdpt_first(),
{
    let names: Vec<&str> = vec![
        "encoder.weight",
        "encoder.bias",
        "thinking_embed",
    ];
    assert(weights::str_views(names@) =~= tabdpt_first());
    weights::push_names(out, names.as_slice());
}

/// The weights of a block of TabDPT.
pub open spec fn tabdpt_block() -> Seq<Seq<char>> {
    seq![
        "attn_norm.weight"@,
        "attn_norm.bias"@,
        "ff_norm.weight"@,
        "ff_norm.bias"@,
        "q_proj.weight"@,
        "k_proj.weight"@,
        "v_proj.weight"@,
        "out_proj.weight"@,
        "q_gate.weight"@,
        "q_norm.weight"@,
        "k_norm.weight"@,
        "ff_up.weight"@,
        "ff_down.weight"@,
    ]
}

fn push_tabdpt_block(out: &mut Vec<String>)
    ensures
        weights::views(final(out)@) == weights::views(old(out)@) + tabdpt_block(),
{
    let names: Vec<&str> = vec![
        "attn_norm.weight",
        "attn_norm.bias",
        "ff_norm.weight",
        "ff_norm.bias",
        "q_proj.weight",
        "k_proj.weight",
        "v_proj.weight",
        "out_proj.weight",
        "q_gate.weight",
        "q_norm.weight",
        "k_norm.weight",
        "ff_up.weight",
        "ff_down.weight",
    ];
    assert(weights::str_views(names@) =~= tabdpt_block());
    weights::push_names(out, names.as_slice());
}

fn tabdpt_block_leaves() -> (r: Vec<String>)
    ensures
        weights::views(r@) == tabdpt_block(),
{
    let mut out: Vec<String> = Vec::new();
    push_tabdpt_block(&mut out);
    assert(weights::views(out@) =~= tabdpt_block());
    out
}

/// The weights that encode the labels for a block of TabDPT.
pub open spec fn tabdpt_labels() -> Seq<Seq<char>> {
    seq![
        "fc1.weight"@,
        "fc1.bias"@,
        "fc2.weight"@,
        "fc2.bias"@,
    ]
}

fn push_tabdpt_labels(out: &mut Vec<String>)
    ensures
        weights::views(final(out)@) == weights::views(old(out)@) + tabdpt_labels(),
{
    let names: Vec<&str> = vec![
        "fc1.weight",
        "fc1.bias",
        "fc2.weight",
        "fc2.bias",
    ];
    assert(weights::str_views(names@) =~= tabdpt_labels());
    weights::push_names(out, names.as_slice());
}

fn tabdpt_labels_leaves() -> (r: Vec<String>)
    ensures
        weights::views(r@) == tabdpt_labels(),
{
    let mut out: Vec<String> = Vec::new();
    push_tabdpt_labels(&mut out);
    assert(weights::views(out@) =~= tabdpt_labels());
    out
}

/// The weights of TabDPT behind its blocks.
pub open spec fn tabdpt_last() -> Seq<Seq<char>> {
    seq![
        "head_fc1.weight"@,
        "head_fc1.bias"@,
        "head_fc2.weight"@,
        "head_fc2.bias"@,
    ]
}

fn push_tabdpt_last(out: &mut Vec<String>)
    ensures
        weights::views(final(out)@) == weights::views(old(out)@) + tabdpt_last(),
{
    let names: Vec<&str> = vec![
        "head_fc1.weight",
        "head_fc1.bias",
        "head_fc2.weight",
        "head_fc2.bias",
    ];
    assert(weights::str_views(names@) =~= tabdpt_last());
    weights::push_names(out, names.as_slice());
}

/// The weights of TabDPT.
pub fn tabdpt_weights(config: &TabDptConfig) -> (r: Vec<String>)
    ensures
        weights::views(r@) == tabdpt_first() + weights::block_names("blk."@, tabdpt_block(), config.n_layers as nat) + weights::block_names("y_enc."@, tabdpt_labels(), config.n_layers as nat) + tabdpt_last(),
{
    let mut out: Vec<String> = Vec::new();
    push_tabdpt_first(&mut out);
    assert(weights::views(out@) =~= tabdpt_first());
    weights::push_blocks(&mut out, "blk.", &tabdpt_block_leaves(), config.n_layers);
    weights::push_blocks(&mut out, "y_enc.", &tabdpt_labels_leaves(), config.n_layers);
    push_tabdpt_last(&mut out);
    out
}

/// The weights that scale queries by the length of the context.
pub open spec fn scaling() -> Seq<Seq<char>> {
    seq![
        "base_mlp.0.weight"@,
        "base_mlp.0.bias"@,
        "base_mlp.2.weight"@,
        "base_mlp.2.bias"@,
        "query_mlp.0.weight"@,
        "query_mlp.0.bias"@,
        "query_mlp.2.weight"@,
        "query_mlp.2.bias"@,
    ]
}

fn push_scaling(out: &mut Vec<String>, prefix: &str)
    ensures
        weights::views(final(out)@) == weights::views(old(out)@) + weights::under(prefix@, scaling()),
{
    let names: Vec<&str> = vec![
        "base_mlp.0.weight",
        "base_mlp.0.bias",
        "base_mlp.2.weight",
        "base_mlp.2.bias",
        "query_mlp.0.weight",
        "query_mlp.0.bias",
        "query_mlp.2.weight",
        "query_mlp.2.bias",
    ];
    assert(weights::str_views(names@) =~= scaling());
    weights::push_under(out, prefix, names.as_slice());
}

/// The weights of an attention block of TabICL.
pub open spec fn tabicl_attention() -> Seq<Seq<char>> {
    seq![
        "norm1.weight"@,
        "norm1.bias"@,
        "norm2.weight"@,
        "norm2.bias"@,
        "attn.in_proj_weight"@,
        "attn.in_proj_bias"@,
        "attn.out_proj.weight"@,
        "attn.out_proj.bias"@,
        "linear1.weight"@,
        "linear1.bias"@,
        "linear2.weight"@,
        "linear2.bias"@,
    ]
}

fn push_tabicl_attention(out: &mut Vec<String>, prefix: &str)
    ensures
        weights::views(final(out)@) == weights::views(old(out)@) + weights::under(prefix@, tabicl_attention()),
{
    let names: Vec<&str> = vec![
        "norm1.weight",
        "norm1.bias",
        "norm2.weight",
        "norm2.bias",
        "attn.in_proj_weight",
        "attn.in_proj_bias",
        "attn.out_proj.weight",
        "attn.out_proj.bias",
        "linear1.weight",
        "linear1.bias",
        "linear2.weight",
        "linear2.bias",
    ];
    assert(weights::str_views(names@) =~= tabicl_attention());
    weights::push_under(out, prefix, names.as_slice());
}

/// The weight of the inducing points of a column block of TabICL.
pub open spec fn tabicl_inducing() -> Seq<Seq<char>> {
    seq![
        "ind_vectors"@,
    ]
}

fn push_tabicl_inducing(out: &mut Vec<String>)
    ensures
        weights::views(final(out)@) == weights::views(old(out)@) + tabicl_inducing(),
{
    let names: Vec<&str> = vec![
        "ind_vectors",
    ];
    assert(weights::str_views(names@) =~= tabicl_inducing());
    weights::push_names(out, names.as_slice());
}

/// The weights of a column block of TabICL.
pub open spec fn tabicl_column() -> Seq<Seq<char>> {
    tabicl_inducing() + weights::under("multihead_attn1."@, tabicl_attention()) + weights::under("multihead_attn1.attn.ssmax_layer."@, scaling()) + weights::under("multihead_attn2."@, tabicl_attention())
}

fn tabicl_column_leaves() -> (r: Vec<String>)
    ensures
        weights::views(r@) == tabicl_column(),
{
    let mut out: Vec<String> = Vec::new();
    push_tabicl_inducing(&mut out);
    assert(weights::views(out@) =~= tabicl_inducing());
    push_tabicl_attention(&mut out, "multihead_attn1.");
    push_scaling(&mut out, "multihead_attn1.attn.ssmax_layer.");
    push_tabicl_attention(&mut out, "multihead_attn2.");
    out
}

/// The weights of a row block of TabICL.
pub open spec fn tabicl_row() -> Seq<Seq<char>> {
    weights::under(""@, tabicl_attention())
}

fn tabicl_row_leaves() -> (r: Vec<String>)
    ensures
        weights::views(r@) == tabicl_row(),
{
    let mut out: Vec<String> = Vec::new();
    push_tabicl_attention(&mut out, "");
    assert(weights::views(out@) =~= weights::under(""@, tabicl_attention()));
    out
}

/// The weights of a block of TabICL that learns in context.
pub open spec fn tabicl_context() -> Seq<Seq<char>> {
    weights::under(""@, tabicl_attention()) + weights::under("attn.ssmax_layer."@, scaling())
}

fn tabicl_context_leaves() -> (r: Vec<String>)
    ensures
        weights::views(r@) == tabicl_context(),
{
    let mut out: Vec<String> = Vec::new();
    push_tabicl_attention(&mut out, "");
    assert(weights::views(out@) =~= weights::under(""@, tabicl_attention()));
    push_scaling(&mut out, "attn.ssmax_layer.");
    out
}

/// The weights of TabICL in front of its column blocks.
pub open spec fn tabicl_first() -> Seq<Seq<char>> {
    seq![
        "col_embedder.in_linear.weight"@,
        "col_embedder.in_linear.bias"@,
        "col_embedder.y_encoder.weight"@,
        "col_embedder.y_encoder.bias"@,
    ]
}

fn push_tabicl_first(out: &mut Vec<String>)
    ensures
        weights::views(final(out)@) == weights::views(old(out)@) + tabicl_first(),
{
    let names: Vec<&str> = vec![
        "col_embedder.in_linear.weight",
        "col_embedder.in_linear.bias",
        "col_embedder.y_encoder.weight",
        "col_embedder.y_encoder.bias",
    ];
    assert(weights::str_views(names@) =~= tabicl_first());
    weights::push_names(out, names.as_slice());
}

/// The weights of TabICL in front of its row blocks.
pub open spec fn tabicl_middle() -> Seq<Seq<char>> {
    seq![
        "row_interactor.cls_tokens"@,
        "row_interactor.out_ln.weight"@,
        "row_interactor.out_ln.bias"@,
        "row_interactor.tf_row.rope.freqs"@,
    ]
}

fn push_tabicl_middle(out: &mut Vec<String>)
    ensures
        weights::views(final(out)@) == weights::views(old(out)@) + tabicl_middle(),
{
    let names: Vec<&str> = vec![
        "row_interactor.cls_tokens",
        "row_interactor.out_ln.weight",
        "row_interactor.out_ln.bias",
        "row_interactor.tf_row.rope.freqs",
    ];
    assert(weights::str_views(names@) =~= tabicl_middle());
    weights::push_names(out, names.as_slice());
}

/// The weights of TabICL in front of the blocks that learn in context.
pub open spec fn tabicl_last() -> Seq<Seq<char>> {
    seq![
        "icl_predictor.y_encoder.weight"@,
        "icl_predictor.y_encoder.bias"@,
        "icl_predictor.ln.weight"@,
        "icl_predictor.ln.bias"@,
        "icl_predictor.decoder.0.weight"@,
        "icl_predictor.decoder.0.bias"@,
        "icl_predictor.decoder.2.weight"@,
        "icl_predictor.decoder.2.bias"@,
    ]
}

fn push_tabicl_last(out: &mut Vec<String>)
    ensures
        weights::views(final(out)@) == weights::views(old(out)@) + tabicl_last(),
{
    let names: Vec<&str> = vec![
        "icl_predictor.y_encoder.weight",
        "icl_predictor.y_encoder.bias",
        "icl_predictor.ln.weight",
        "icl_predictor.ln.bias",
        "icl_predictor.decoder.0.weight",
        "icl_predictor.decoder.0.bias",
        "icl_predictor.decoder.2.weight",
        "icl_predictor.decoder.2.bias",
    ];
    assert(weights::str_views(names@) =~= tabicl_last());
    weights::push_names(out, names.as_slice());
}

/// The weights of TabICL.
pub fn tabicl_weights(config: &TabIclConfig) -> (r: Vec<String>)
    ensures
        weights::views(r@) == tabicl_first() + weights::block_names("col_embedder.tf_col.blocks."@, tabicl_column(), config.col_num_blocks as nat) + tabicl_middle() + weights::block_names("row_interactor.tf_row.blocks."@, tabicl_row(), config.row_num_blocks as nat) + tabicl_last() + weights::block_names("icl_predictor.tf_icl.blocks."@, tabicl_context(), config.icl_num_blocks as nat),
{
    let mut out: Vec<String> = Vec::new();
    push_tabicl_first(&mut out);
    assert(weights::views(out@) =~= tabicl_first());
    weights::push_blocks(&mut out, "col_embedder.tf_col.blocks.", &tabicl_column_leaves(), config.col_num_blocks);
    push_tabicl_middle(&mut out);
    weights::push_blocks(&mut out, "row_interactor.tf_row.blocks.", &tabicl_row_leaves(), config.row_num_blocks);
    push_tabicl_last(&mut out);
    weights::push_blocks(&mut out, "icl_predictor.tf_icl.blocks.", &tabicl_context_leaves(), config.icl_num_blocks);
    out
}

/// The weights of a cross-attention block of TabPFN.
pub open spec fn tabpfn_cross() -> Seq<Seq<char>> {
    seq![
        "attn.q_projection.weight"@,
        "attn.k_projection.weight"@,
        "attn.v_projection.weight"@,
        "attn.out_projection.weight"@,
        "mlp.0.weight"@,
        "mlp.2.weight"@,
        "layernorm_q.weight"@,
        "layernorm_kv.weight"@,
        "layernorm2.weight"@,
    ]
}

fn push_tabpfn_cross(out: &mut Vec<String>, prefix: &str)
    ensures
        weights::views(final(out)@) == weights::views(old(out)@) + weights::under(prefix@, tabpfn_cross()),
{
    let names: Vec<&str> = vec![
        "attn.q_projection.weight",
        "attn.k_projection.weight",
        "attn.v_projection.weight",
        "attn.out_projection.weight",
        "mlp.0.weight",
        "mlp.2.weight",
        "layernorm_q.weight",
        "layernorm_kv.weight",
        "layernorm2.weight",
    ];
    assert(weights::str_views(names@) =~= tabpfn_cross());
    weights::push_under(out, prefix, names.as_slice());
}

/// The weight of the inducing points of a column block of TabPFN.
pub open spec fn tabpfn_inducing() -> Seq<Seq<char>> {
    seq![
        "inducing_vectors"@,
    ]
}

fn push_tabpfn_inducing(out: &mut Vec<String>)
    ensures
        weights::views(final(out)@) == weights::views(old(out)@) + tabpfn_inducing(),
{
    let names: Vec<&str> = vec![
        "inducing_vectors",
    ];
    assert(weights::str_views(names@) =~= tabpfn_inducing());
    weights::push_names(out, names.as_slice());
}

/// The weights of a column block of TabPFN.
pub open spec fn tabpfn_column() -> Seq<Seq<char>> {
    tabpfn_inducing() + weights::under("cross_attn_block1."@, tabpfn_cross()) + weights::under("cross_attn_block1.attn.softmax_scaling_layer."@, scaling()) + weights::under("cross_attn_block2."@, tabpfn_cross())
}

fn tabpfn_column_leaves() -> (r: Vec<String>)
    ensures
        weights::views(r@) == tabpfn_column(),
{
    let mut out: Vec<String> = Vec::new();
    push_tabpfn_inducing(&mut out);
    assert(weights::views(out@) =~= tabpfn_inducing());
    push_tabpfn_cross(&mut out, "cross_attn_block1.");
    push_scaling(&mut out, "cross_attn_block1.attn.softmax_scaling_layer.");
    push_tabpfn_cross(&mut out, "cross_attn_block2.");
    out
}

/// The weights of a row block of TabPFN.
pub open spec fn tabpfn_row() -> Seq<Seq<char>> {
    seq![
        "attention.q_projection.weight"@,
        "attention.k_projection.weight"@,
        "attention.v_projection.weight"@,
        "attention.out_projection.weight"@,
        "mlp.0.weight"@,
        "mlp.2.weight"@,
        "layernorm.weight"@,
        "layernorm_mlp.weight"@,
    ]
}

fn push_tabpfn_row(out: &mut Vec<String>)
    ensures
        weights::views(final(out)@) == weights::views(old(out)@) + tabpfn_row(),
{
    let names: Vec<&str> = vec![
        "attention.q_projection.weight",
        "attention.k_projection.weight",
        "attention.v_projection.weight",
        "attention.out_projection.weight",
        "mlp.0.weight",
        "mlp.2.weight",
        "layernorm.weight",
        "layernorm_mlp.weight",
    ];
    assert(weights::str_views(names@) =~= tabpfn_row());
    weights::push_names(out, names.as_slice());
}

fn tabpfn_row_leaves() -> (r: Vec<String>)
    ensures
        weights::views(r@) == tabpfn_row(),
{
    let mut out: Vec<String> = Vec::new();
    push_tabpfn_row(&mut out);
    assert(weights::views(out@) =~= tabpfn_row());
    out
}

/// The weights of an attention of TabPFN that learns in context.
pub open spec fn tabpfn_attention() -> Seq<Seq<char>> {
    seq![
        "icl_attention.q_projection.weight"@,
        "icl_attention.k_projection.weight"@,
        "icl_attention.v_projection.weight"@,
        "icl_attention.out_projection.weight"@,
        "mlp.0.weight"@,
        "mlp.2.weight"@,
        "layernorm.weight"@,
        "layernorm_mlp.weight"@,
    ]
}

fn push_tabpfn_attention(out: &mut Vec<String>, prefix: &str)
    ensures
        weights::views(final(out)@) == weights::views(old(out)@) + weights::under(prefix@, tabpfn_attention()),
{
    let names: Vec<&str> = vec![
        "icl_attention.q_projection.weight",
        "icl_attention.k_projection.weight",
        "icl_attention.v_projection.weight",
        "icl_attention.out_projection.weight",
        "mlp.0.weight",
        "mlp.2.weight",
        "layernorm.weight",
        "layernorm_mlp.weight",
    ];
    assert(weights::str_views(names@) =~= tabpfn_attention());
    weights::push_under(out, prefix, names.as_slice());
}

/// The weights of a block of TabPFN that learns in context.
pub open spec fn tabpfn_context() -> Seq<Seq<char>> {
    weights::under(""@, tabpfn_attention()) + weights::under("icl_attention.softmax_scaling_layer."@, scaling())
}

fn tabpfn_context_leaves() -> (r: Vec<String>)
    ensures
        weights::views(r@) == tabpfn_context(),
{
    let mut out: Vec<String> = Vec::new();
    push_tabpfn_attention(&mut out, "");
    assert(weights::views(out@) =~= weights::under(""@, tabpfn_attention()));
    push_scaling(&mut out, "icl_attention.softmax_scaling_layer.");
    out
}

/// The weights of TabPFN in front of its column blocks.
pub open spec fn tabpfn_first() -> Seq<Seq<char>> {
    seq![
        "x_embed.weight"@,
        "x_embed.bias"@,
        "col_y_encoder.embedding.weight"@,
        "icl_y_encoder.embedding.weight"@,
    ]
}

fn push_tabpfn_first(out: &mut Vec<String>)
    ensures
        weights::views(final(out)@) == weights::views(old(out)@) + tabpfn_first(),
{
    let names: Vec<&str> = vec![
        "x_embed.weight",
        "x_embed.bias",
        "col_y_encoder.embedding.weight",
        "icl_y_encoder.embedding.weight",
    ];
    assert(weights::str_views(names@) =~= tabpfn_first());
    weights::push_names(out, names.as_slice());
}

/// The weights of TabPFN behind its row blocks.
pub open spec fn tabpfn_middle() -> Seq<Seq<char>> {
    seq![
        "column_aggregator.cls_tokens"@,
        "column_aggregator.out_ln.weight"@,
        "column_aggregator.rope.freqs"@,
    ]
}

fn push_tabpfn_middle(out: &mut Vec<String>)
    ensures
        weights::views(final(out)@) == weights::views(old(out)@) + tabpfn_middle(),
{
    let names: Vec<&str> = vec![
        "column_aggregator.cls_tokens",
        "column_aggregator.out_ln.weight",
        "column_aggregator.rope.freqs",
    ];
    assert(weights::str_views(names@) =~= tabpfn_middle());
    weights::push_names(out, names.as_slice());
}

/// The weights of TabPFN behind its blocks.
pub open spec fn tabpfn_last() -> Seq<Seq<char>> {
    seq![
        "output_norm.weight"@,
        "many_class_decoder.q_projection.weight"@,
        "many_class_decoder.q_projection.bias"@,
        "many_class_decoder.k_projection.weight"@,
        "many_class_decoder.k_projection.bias"@,
    ]
}

fn push_tabpfn_last(out: &mut Vec<String>)
    ensures
        weights::views(final(out)@) == weights::views(old(out)@) + tabpfn_last(),
{
    let names: Vec<&str> = vec![
        "output_norm.weight",
        "many_class_decoder.q_projection.weight",
        "many_class_decoder.q_projection.bias",
        "many_class_decoder.k_projection.weight",
        "many_class_decoder.k_projection.bias",
    ];
    assert(weights::str_views(names@) =~= tabpfn_last());
    weights::push_names(out, names.as_slice());
}

/// The weights of TabPFN.
pub fn tabpfn_weights(config: &TabPfnConfig) -> (r: Vec<String>)
    ensures
        weights::views(r@) == tabpfn_first() + weights::block_names("feature_distribution_embedder.layers."@, tabpfn_column(), config.dist_embed_num_blocks as nat) + weights::block_names("column_aggregator.blocks."@, tabpfn_row(), config.feat_agg_num_blocks as nat) + tabpfn_middle() + weights::block_names("icl_blocks."@, tabpfn_context(), config.nlayers as nat) + tabpfn_last() + (if config.decoder_use_softmax_scaling {
            weights::under("many_class_decoder.softmax_scaling_layer."@, scaling())
        } else {
            Seq::empty()
        }),
{
    let mut out: Vec<String> = Vec::new();
    push_tabpfn_first(&mut out);
    assert(weights::views(out@) =~= tabpfn_first());
    weights::push_blocks(&mut out, "feature_distribution_embedder.layers.", &tabpfn_column_leaves(), config.dist_embed_num_blocks);
    weights::push_blocks(&mut out, "column_aggregator.blocks.", &tabpfn_row_leaves(), config.feat_agg_num_blocks);
    push_tabpfn_middle(&mut out);
    weights::push_blocks(&mut out, "icl_blocks.", &tabpfn_context_leaves(), config.nlayers);
    push_tabpfn_last(&mut out);
    if config.decoder_use_softmax_scaling {
        push_scaling(&mut out, "many_class_decoder.softmax_scaling_layer.");
    } else {
        assert(weights::views(out@) =~= weights::views(out@) + Seq::<Seq<char>>::empty());
    }
    out
}

/// The weights of an attention block of TabFM.
pub open spec fn tabfm_attention() -> Seq<Seq<char>> {
    seq![
        "attn_q.weight"@,
        "attn_q.bias"@,
        "attn_k.weight"@,
        "attn_k.bias"@,
        "attn_v.weight"@,
        "attn_v.bias"@,
        "attn_o.weight"@,
        "attn_o.bias"@,
        "q_norm.weight"@,
        "k_norm.weight"@,
        "per_dim_scale"@,
        "pre_attn_norm.weight"@,
        "post_attn_norm.weight"@,
        "pre_ff_norm.weight"@,
        "post_ff_norm.weight"@,
        "ffn_up.weight"@,
        "ffn_up.bias"@,
        "ffn_gate.weight"@,
        "ffn_gate.bias"@,
        "ffn_down.weight"@,
        "ffn_down.bias"@,
    ]
}

fn push_tabfm_attention(out: &mut Vec<String>, prefix: &str)
    ensures
        weights::views(final(out)@) == weights::views(old(out)@) + weights::under(prefix@, tabfm_attention()),
{
    let names: Vec<&str> = vec![
        "attn_q.weight",
        "attn_q.bias",
        "attn_k.weight",
        "attn_k.bias",
        "attn_v.weight",
        "attn_v.bias",
        "attn_o.weight",
        "attn_o.bias",
        "q_norm.weight",
        "k_norm.weight",
        "per_dim_scale",
        "pre_attn_norm.weight",
        "post_attn_norm.weight",
        "pre_ff_norm.weight",
        "post_ff_norm.weight",
        "ffn_up.weight",
        "ffn_up.bias",
        "ffn_gate.weight",
        "ffn_gate.bias",
        "ffn_down.weight",
        "ffn_down.bias",
    ];
    assert(weights::str_views(names@) =~= tabfm_attention());
    weights::push_under(out, prefix, names.as_slice());
}

/// The weight of the inducing points of a column block of TabFM.
pub open spec fn tabfm_inducing() -> Seq<Seq<char>> {
    seq![
        "ind_vectors"@,
    ]
}

fn push_tabfm_inducing(out: &mut Vec<String>)
    ensures
        weights::views(final(out)@) == weights::views(old(out)@) + tabfm_inducing(),
{
    let names: Vec<&str> = vec![
        "ind_vectors",
    ];
    assert(weights::str_views(names@) =~= tabfm_inducing());
    weights::push_names(out, names.as_slice());
}

/// The weights of a column block of TabFM.
pub open spec fn tabfm_column() -> Seq<Seq<char>> {
    tabfm_inducing() + weights::under("mab1."@, tabfm_attention()) + weights::under("mab2."@, tabfm_attention())
}

fn tabfm_column_leaves() -> (r: Vec<String>)
    ensures
        weights::views(r@) == tabfm_column(),
{
    let mut out: Vec<String> = Vec::new();
    push_tabfm_inducing(&mut out);
    assert(weights::views(out@) =~= tabfm_inducing());
    push_tabfm_attention(&mut out, "mab1.");
    push_tabfm_attention(&mut out, "mab2.");
    out
}

/// The weights of a row block of TabFM, and of one that learns in context.
pub open spec fn tabfm_row() -> Seq<Seq<char>> {
    weights::under(""@, tabfm_attention())
}

fn tabfm_row_leaves() -> (r: Vec<String>)
    ensures
        weights::views(r@) == tabfm_row(),
{
    let mut out: Vec<String> = Vec::new();
    push_tabfm_attention(&mut out, "");
    assert(weights::views(out@) =~= weights::under(""@, tabfm_attention()));
    out
}

/// The weights of two layers.
pub open spec fn two_layers() -> Seq<Seq<char>> {
    seq![
        "mlp.0.weight"@,
        "mlp.0.bias"@,
        "mlp.1.weight"@,
        "mlp.1.bias"@,
    ]
}

fn push_two_layers(out: &mut Vec<String>, prefix: &str)
    ensures
        weights::views(final(out)@) == weights::views(old(out)@) + weights::under(prefix@, two_layers()),
{
    let names: Vec<&str> = vec![
        "mlp.0.weight",
        "mlp.0.bias",
        "mlp.1.weight",
        "mlp.1.bias",
    ];
    assert(weights::str_views(names@) =~= two_layers());
    weights::push_under(out, prefix, names.as_slice());
}

/// The weights of the cells of TabFM.
pub open spec fn tabfm_cell() -> Seq<Seq<char>> {
    seq![
        "cell.fourier_freq"@,
        "cell.fourier_freq_cat"@,
        "cell.in_linear.weight"@,
        "cell.in_linear.bias"@,
        "cell.in_linear_cat.weight"@,
        "cell.in_linear_cat.bias"@,
    ]
}

fn push_tabfm_cell(out: &mut Vec<String>)
    ensures
        weights::views(final(out)@) == weights::views(old(out)@) + tabfm_cell(),
{
    let names: Vec<&str> = vec![
        "cell.fourier_freq",
        "cell.fourier_freq_cat",
        "cell.in_linear.weight",
        "cell.in_linear.bias",
        "cell.in_linear_cat.weight",
        "cell.in_linear_cat.bias",
    ];
    assert(weights::str_views(names@) =~= tabfm_cell());
    weights::push_names(out, names.as_slice());
}

/// The weights of the labels in the cells of a classifier.
pub open spec fn tabfm_labels() -> Seq<Seq<char>> {
    seq![
        "cell.y_embed.weight"@,
    ]
}

fn push_tabfm_labels(out: &mut Vec<String>)
    ensures
        weights::views(final(out)@) == weights::views(old(out)@) + tabfm_labels(),
{
    let names: Vec<&str> = vec![
        "cell.y_embed.weight",
    ];
    assert(weights::str_views(names@) =~= tabfm_labels());
    weights::push_names(out, names.as_slice());
}

/// The weights behind a stack of column blocks of TabFM.
pub open spec fn tabfm_column_end() -> Seq<Seq<char>> {
    seq![
        "out_w.weight"@,
        "out_w.bias"@,
        "out_norm.weight"@,
    ]
}

fn push_tabfm_column_end(out: &mut Vec<String>, prefix: &str)
    ensures
        weights::views(final(out)@) == weights::views(old(out)@) + weights::under(prefix@, tabfm_column_end()),
{
    let names: Vec<&str> = vec![
        "out_w.weight",
        "out_w.bias",
        "out_norm.weight",
    ];
    assert(weights::str_views(names@) =~= tabfm_column_end());
    weights::push_under(out, prefix, names.as_slice());
}

/// The weight in front of a stack of row blocks of TabFM.
pub open spec fn tabfm_row_start() -> Seq<Seq<char>> {
    seq![
        "rope_freqs"@,
    ]
}

fn push_tabfm_row_start(out: &mut Vec<String>, prefix: &str)
    ensures
        weights::views(final(out)@) == weights::views(old(out)@) + weights::under(prefix@, tabfm_row_start()),
{
    let names: Vec<&str> = vec![
        "rope_freqs",
    ];
    assert(weights::str_views(names@) =~= tabfm_row_start());
    weights::push_under(out, prefix, names.as_slice());
}

/// The weight of the norm behind a stack of blocks.
pub open spec fn norm_end() -> Seq<Seq<char>> {
    seq![
        "out_norm.weight"@,
    ]
}

fn push_norm_end(out: &mut Vec<String>, prefix: &str)
    ensures
        weights::views(final(out)@) == weights::views(old(out)@) + weights::under(prefix@, norm_end()),
{
    let names: Vec<&str> = vec![
        "out_norm.weight",
    ];
    assert(weights::str_views(names@) =~= norm_end());
    weights::push_under(out, prefix, names.as_slice());
}

/// The weight of the class tokens of TabFM.
pub open spec fn tabfm_tokens() -> Seq<Seq<char>> {
    seq![
        "cls_tokens"@,
    ]
}

fn push_tabfm_tokens(out: &mut Vec<String>)
    ensures
        weights::views(final(out)@) == weights::views(old(out)@) + tabfm_tokens(),
{
    let names: Vec<&str> = vec![
        "cls_tokens",
    ];
    assert(weights::str_views(names@) =~= tabfm_tokens());
    weights::push_names(out, names.as_slice());
}

/// The weights of the labels that a classifier learns from in context.
pub open spec fn tabfm_targets() -> Seq<Seq<char>> {
    seq![
        "icl.y_encoder.projection.weight"@,
        "icl.y_encoder.projection.bias"@,
    ]
}

fn push_tabfm_targets(out: &mut Vec<String>)
    ensures
        weights::views(final(out)@) == weights::views(old(out)@) + tabfm_targets(),
{
    let names: Vec<&str> = vec![
        "icl.y_encoder.projection.weight",
        "icl.y_encoder.projection.bias",
    ];
    assert(weights::str_views(names@) =~= tabfm_targets());
    weights::push_names(out, names.as_slice());
}

/// The weights of TabFM.
pub fn tabfm_weights(config: &InferConfig) -> (r: Vec<String>)
    ensures
        weights::views(r@) == tabfm_cell() + (if config.is_classifier {
            tabfm_labels()
        } else {
            weights::under("cell.y_embed."@, two_layers())
        }) + weights::block_names("colenc1.blk."@, tabfm_column(), config.col_num_blocks as nat) + weights::under("colenc1."@, tabfm_column_end()) + weights::block_names("colenc2.blk."@, tabfm_column(), config.col_num_blocks as nat) + weights::under("colenc2."@, tabfm_column_end()) + weights::under("rowenc1."@, tabfm_row_start()) + weights::block_names("rowenc1.blk."@, tabfm_row(), config.row_num_blocks as nat) + weights::under("rowenc1."@, norm_end()) + weights::under("rowenc2."@, tabfm_row_start()) + weights::block_names("rowenc2.blk."@, tabfm_row(), config.row_num_blocks as nat) + weights::under("rowenc2."@, norm_end()) + tabfm_tokens() + weights::block_names("icl.blk."@, tabfm_row(), config.icl_num_blocks as nat) + (if config.is_classifier {
            tabfm_targets()
        } else {
            weights::under("icl.y_encoder."@, two_layers())
        }) + weights::under("icl.decoder."@, two_layers()) + weights::under("icl."@, norm_end()),
{
    let mut out: Vec<String> = Vec::new();
    push_tabfm_cell(&mut out);
    assert(weights::views(out@) =~= tabfm_cell());
    if config.is_classifier {
        push_tabfm_labels(&mut out);
    } else {
        push_two_layers(&mut out, "cell.y_embed.");
    }
    weights::push_blocks(&mut out, "colenc1.blk.", &tabfm_column_leaves(), config.col_num_blocks);
    push_tabfm_column_end(&mut out, "colenc1.");
    weights::push_blocks(&mut out, "colenc2.blk.", &tabfm_column_leaves(), config.col_num_blocks);
    push_tabfm_column_end(&mut out, "colenc2.");
    push_tabfm_row_start(&mut out, "rowenc1.");
    weights::push_blocks(&mut out, "rowenc1.blk.", &tabfm_row_leaves(), config.row_num_blocks);
    push_norm_end(&mut out, "rowenc1.");
    push_tabfm_row_start(&mut out, "rowenc2.");
    weights::push_blocks(&mut out, "rowenc2.blk.", &tabfm_row_leaves(), config.row_num_blocks);
    push_norm_end(&mut out, "rowenc2.");
    push_tabfm_tokens(&mut out);
    weights::push_blocks(&mut out, "icl.blk.", &tabfm_row_leaves(), config.icl_num_blocks);
    if config.is_classifier {
        push_tabfm_targets(&mut out);
    } else {
        push_two_layers(&mut out, "icl.y_encoder.");
    }
    push_two_layers(&mut out, "icl.decoder.");
    push_norm_end(&mut out, "icl.");
    out
}

/// The names of Mitra's weights.
pub proof fn law_mitra_names()
    ensures
        mitra_first().len() == 3,
        mitra_first()[0] == "x_embed.weight"@,
        mitra_first()[1] == "x_embed.bias"@,
        mitra_first()[2] == "y_embed.weight"@,
        mitra_bias().len() == 1,
        mitra_bias()[0] == "y_embed.bias"@,
        mitra_mask().len() == 1,
        mitra_mask()[0] == "y_mask.weight"@,
        mitra_block().len() == 32,
        mitra_block()[0] == "attn_row.q.weight"@,
        mitra_block()[1] == "attn_row.q.bias"@,
        mitra_block()[2] == "attn_row.k.weight"@,
        mitra_block()[3] == "attn_row.k.bias"@,
        mitra_block()[4] == "attn_row.v.weight"@,
        mitra_block()[5] == "attn_row.v.bias"@,
        mitra_block()[6] == "attn_row.o.weight"@,
        mitra_block()[7] == "attn_row.o.bias"@,
        mitra_block()[8] == "attn_feat.q.weight"@,
        mitra_block()[9] == "attn_feat.q.bias"@,
        mitra_block()[10] == "attn_feat.k.weight"@,
        mitra_block()[11] == "attn_feat.k.bias"@,
        mitra_block()[12] == "attn_feat.v.weight"@,
        mitra_block()[13] == "attn_feat.v.bias"@,
        mitra_block()[14] == "attn_feat.o.weight"@,
        mitra_block()[15] == "attn_feat.o.bias"@,
        mitra_block()[16] == "ln1.weight"@,
        mitra_block()[17] == "ln1.bias"@,
        mitra_block()[18] == "ln2.weight"@,
        mitra_block()[19] == "ln2.bias"@,
        mitra_block()[20] == "ln3.weight"@,
        mitra_block()[21] == "ln3.bias"@,
        mitra_block()[22] == "ln4.weight"@,
        mitra_block()[23] == "ln4.bias"@,
        mitra_block()[24] == "mlp1_fc1.weight"@,
        mitra_block()[25] == "mlp1_fc1.bias"@,
        mitra_block()[26] == "mlp1_fc2.weight"@,
        mitra_block()[27] == "mlp1_fc2.bias"@,
        mitra_block()[28] == "mlp2_fc1.weight"@,
        mitra_block()[29] == "mlp2_fc1.bias"@,
        mitra_block()[30] == "mlp2_fc2.weight"@,
        mitra_block()[31] == "mlp2_fc2.bias"@,
        mitra_last().len() == 4,
        mitra_last()[0] == "norm_f.weight"@,
        mitra_last()[1] == "norm_f.bias"@,
        mitra_last()[2] == "head.weight"@,
        mitra_last()[3] == "head.bias"@,
{
}

/// The names of TabDPT's weights.
pub proof fn law_tabdpt_names()
    ensures
        tabdpt_first().len() == 3,
        tabdpt_first()[0] == "encoder.weight"@,
        tabdpt_first()[1] == "encoder.bias"@,
        tabdpt_first()[2] == "thinking_embed"@,
        tabdpt_block().len() == 13,
        tabdpt_block()[0] == "attn_norm.weight"@,
        tabdpt_block()[1] == "attn_norm.bias"@,
        tabdpt_block()[2] == "ff_norm.weight"@,
        tabdpt_block()[3] == "ff_norm.bias"@,
        tabdpt_block()[4] == "q_proj.weight"@,
        tabdpt_block()[5] == "k_proj.weight"@,
        tabdpt_block()[6] == "v_proj.weight"@,
        tabdpt_block()[7] == "out_proj.weight"@,
        tabdpt_block()[8] == "q_gate.weight"@,
        tabdpt_block()[9] == "q_norm.weight"@,
        tabdpt_block()[10] == "k_norm.weight"@,
        tabdpt_block()[11] == "ff_up.weight"@,
        tabdpt_block()[12] == "ff_down.weight"@,
        tabdpt_labels().len() == 4,
        tabdpt_labels()[0] == "fc1.weight"@,
        tabdpt_labels()[1] == "fc1.bias"@,
        tabdpt_labels()[2] == "fc2.weight"@,
        tabdpt_labels()[3] == "fc2.bias"@,
        tabdpt_last().len() == 4,
        tabdpt_last()[0] == "head_fc1.weight"@,
        tabdpt_last()[1] == "head_fc1.bias"@,
        tabdpt_last()[2] == "head_fc2.weight"@,
        tabdpt_last()[3] == "head_fc2.bias"@,
{
}

/// The names of TabICL's weights.
pub proof fn law_tabicl_names()
    ensures
        tabicl_attention().len() == 12,
        tabicl_attention()[0] == "norm1.weight"@,
        tabicl_attention()[1] == "norm1.bias"@,
        tabicl_attention()[2] == "norm2.weight"@,
        tabicl_attention()[3] == "norm2.bias"@,
        tabicl_attention()[4] == "attn.in_proj_weight"@,
        tabicl_attention()[5] == "attn.in_proj_bias"@,
        tabicl_attention()[6] == "attn.out_proj.weight"@,
        tabicl_attention()[7] == "attn.out_proj.bias"@,
        tabicl_attention()[8] == "linear1.weight"@,
        tabicl_attention()[9] == "linear1.bias"@,
        tabicl_attention()[10] == "linear2.weight"@,
        tabicl_attention()[11] == "linear2.bias"@,
        tabicl_inducing().len() == 1,
        tabicl_inducing()[0] == "ind_vectors"@,
        tabicl_first().len() == 4,
        tabicl_first()[0] == "col_embedder.in_linear.weight"@,
        tabicl_first()[1] == "col_embedder.in_linear.bias"@,
        tabicl_first()[2] == "col_embedder.y_encoder.weight"@,
        tabicl_first()[3] == "col_embedder.y_encoder.bias"@,
        tabicl_middle().len() == 4,
        tabicl_middle()[0] == "row_interactor.cls_tokens"@,
        tabicl_middle()[1] == "row_interactor.out_ln.weight"@,
        tabicl_middle()[2] == "row_interactor.out_ln.bias"@,
        tabicl_middle()[3] == "row_interactor.tf_row.rope.freqs"@,
        tabicl_last().len() == 8,
        tabicl_last()[0] == "icl_predictor.y_encoder.weight"@,
        tabicl_last()[1] == "icl_predictor.y_encoder.bias"@,
        tabicl_last()[2] == "icl_predictor.ln.weight"@,
        tabicl_last()[3] == "icl_predictor.ln.bias"@,
        tabicl_last()[4] == "icl_predictor.decoder.0.weight"@,
        tabicl_last()[5] == "icl_predictor.decoder.0.bias"@,
        tabicl_last()[6] == "icl_predictor.decoder.2.weight"@,
        tabicl_last()[7] == "icl_predictor.decoder.2.bias"@,
{
}

/// The names of TabPFN's weights.
pub proof fn law_tabpfn_names()
    ensures
        tabpfn_cross().len() == 9,
        tabpfn_cross()[0] == "attn.q_projection.weight"@,
        tabpfn_cross()[1] == "attn.k_projection.weight"@,
        tabpfn_cross()[2] == "attn.v_projection.weight"@,
        tabpfn_cross()[3] == "attn.out_projection.weight"@,
        tabpfn_cross()[4] == "mlp.0.weight"@,
        tabpfn_cross()[5] == "mlp.2.weight"@,
        tabpfn_cross()[6] == "layernorm_q.weight"@,
        tabpfn_cross()[7] == "layernorm_kv.weight"@,
        tabpfn_cross()[8] == "layernorm2.weight"@,
        tabpfn_inducing().len() == 1,
        tabpfn_inducing()[0] == "inducing_vectors"@,
        tabpfn_row().len() == 8,
        tabpfn_row()[0] == "attention.q_projection.weight"@,
        tabpfn_row()[1] == "attention.k_projection.weight"@,
        tabpfn_row()[2] == "attention.v_projection.weight"@,
        tabpfn_row()[3] == "attention.out_projection.weight"@,
        tabpfn_row()[4] == "mlp.0.weight"@,
        tabpfn_row()[5] == "mlp.2.weight"@,
        tabpfn_row()[6] == "layernorm.weight"@,
        tabpfn_row()[7] == "layernorm_mlp.weight"@,
        tabpfn_attention().len() == 8,
        tabpfn_attention()[0] == "icl_attention.q_projection.weight"@,
        tabpfn_attention()[1] == "icl_attention.k_projection.weight"@,
        tabpfn_attention()[2] == "icl_attention.v_projection.weight"@,
        tabpfn_attention()[3] == "icl_attention.out_projection.weight"@,
        tabpfn_attention()[4] == "mlp.0.weight"@,
        tabpfn_attention()[5] == "mlp.2.weight"@,
        tabpfn_attention()[6] == "layernorm.weight"@,
        tabpfn_attention()[7] == "layernorm_mlp.weight"@,
        tabpfn_first().len() == 4,
        tabpfn_first()[0] == "x_embed.weight"@,
        tabpfn_first()[1] == "x_embed.bias"@,
        tabpfn_first()[2] == "col_y_encoder.embedding.weight"@,
        tabpfn_first()[3] == "icl_y_encoder.embedding.weight"@,
        tabpfn_middle().len() == 3,
        tabpfn_middle()[0] == "column_aggregator.cls_tokens"@,
        tabpfn_middle()[1] == "column_aggregator.out_ln.weight"@,
        tabpfn_middle()[2] == "column_aggregator.rope.freqs"@,
        tabpfn_last().len() == 5,
        tabpfn_last()[0] == "output_norm.weight"@,
        tabpfn_last()[1] == "many_class_decoder.q_projection.weight"@,
        tabpfn_last()[2] == "many_class_decoder.q_projection.bias"@,
        tabpfn_last()[3] == "many_class_decoder.k_projection.weight"@,
        tabpfn_last()[4] == "many_class_decoder.k_projection.bias"@,
{
}

/// The names of TabFM's weights.
pub proof fn law_tabfm_names()
    ensures
        tabfm_attention().len() == 21,
        tabfm_attention()[0] == "attn_q.weight"@,
        tabfm_attention()[1] == "attn_q.bias"@,
        tabfm_attention()[2] == "attn_k.weight"@,
        tabfm_attention()[3] == "attn_k.bias"@,
        tabfm_attention()[4] == "attn_v.weight"@,
        tabfm_attention()[5] == "attn_v.bias"@,
        tabfm_attention()[6] == "attn_o.weight"@,
        tabfm_attention()[7] == "attn_o.bias"@,
        tabfm_attention()[8] == "q_norm.weight"@,
        tabfm_attention()[9] == "k_norm.weight"@,
        tabfm_attention()[10] == "per_dim_scale"@,
        tabfm_attention()[11] == "pre_attn_norm.weight"@,
        tabfm_attention()[12] == "post_attn_norm.weight"@,
        tabfm_attention()[13] == "pre_ff_norm.weight"@,
        tabfm_attention()[14] == "post_ff_norm.weight"@,
        tabfm_attention()[15] == "ffn_up.weight"@,
        tabfm_attention()[16] == "ffn_up.bias"@,
        tabfm_attention()[17] == "ffn_gate.weight"@,
        tabfm_attention()[18] == "ffn_gate.bias"@,
        tabfm_attention()[19] == "ffn_down.weight"@,
        tabfm_attention()[20] == "ffn_down.bias"@,
        tabfm_inducing().len() == 1,
        tabfm_inducing()[0] == "ind_vectors"@,
        tabfm_cell().len() == 6,
        tabfm_cell()[0] == "cell.fourier_freq"@,
        tabfm_cell()[1] == "cell.fourier_freq_cat"@,
        tabfm_cell()[2] == "cell.in_linear.weight"@,
        tabfm_cell()[3] == "cell.in_linear.bias"@,
        tabfm_cell()[4] == "cell.in_linear_cat.weight"@,
        tabfm_cell()[5] == "cell.in_linear_cat.bias"@,
        tabfm_labels().len() == 1,
        tabfm_labels()[0] == "cell.y_embed.weight"@,
        tabfm_column_end().len() == 3,
        tabfm_column_end()[0] == "out_w.weight"@,
        tabfm_column_end()[1] == "out_w.bias"@,
        tabfm_column_end()[2] == "out_norm.weight"@,
        tabfm_row_start().len() == 1,
        tabfm_row_start()[0] == "rope_freqs"@,
        tabfm_tokens().len() == 1,
        tabfm_tokens()[0] == "cls_tokens"@,
        tabfm_targets().len() == 2,
        tabfm_targets()[0] == "icl.y_encoder.projection.weight"@,
        tabfm_targets()[1] == "icl.y_encoder.projection.bias"@,
{
}

/// The names of layers that several models share.
pub proof fn law_shared_layer_names()
    ensures
        scaling().len() == 8,
        scaling()[0] == "base_mlp.0.weight"@,
        scaling()[1] == "base_mlp.0.bias"@,
        scaling()[2] == "base_mlp.2.weight"@,
        scaling()[3] == "base_mlp.2.bias"@,
        scaling()[4] == "query_mlp.0.weight"@,
        scaling()[5] == "query_mlp.0.bias"@,
        scaling()[6] == "query_mlp.2.weight"@,
        scaling()[7] == "query_mlp.2.bias"@,
        two_layers().len() == 4,
        two_layers()[0] == "mlp.0.weight"@,
        two_layers()[1] == "mlp.0.bias"@,
        two_layers()[2] == "mlp.1.weight"@,
        two_layers()[3] == "mlp.1.bias"@,
        norm_end().len() == 1,
        norm_end()[0] == "out_norm.weight"@,
{
}

/// A layer over the columns has its inducing vectors and two attentions, of which the first is scaled
/// where the model scales any.
pub proof fn law_column_layers(i: int)
    ensures
        tabicl_column().len() == 33,
        tabicl_column()[0] == "ind_vectors"@,
        0 <= i < 12 ==> tabicl_column()[1 + i] == "multihead_attn1."@ + tabicl_attention()[i],
        0 <= i < 8 ==> tabicl_column()[13 + i] == "multihead_attn1.attn.ssmax_layer."@ + scaling()[i],
        0 <= i < 12 ==> tabicl_column()[21 + i] == "multihead_attn2."@ + tabicl_attention()[i],
        tabpfn_column().len() == 27,
        tabpfn_column()[0] == "inducing_vectors"@,
        0 <= i < 9 ==> tabpfn_column()[1 + i] == "cross_attn_block1."@ + tabpfn_cross()[i],
        0 <= i < 8 ==> tabpfn_column()[10 + i] == "cross_attn_block1.attn.softmax_scaling_layer."@ + scaling()[i],
        0 <= i < 9 ==> tabpfn_column()[18 + i] == "cross_attn_block2."@ + tabpfn_cross()[i],
        tabfm_column().len() == 43,
        tabfm_column()[0] == "ind_vectors"@,
        0 <= i < 21 ==> tabfm_column()[1 + i] == "mab1."@ + tabfm_attention()[i],
        0 <= i < 21 ==> tabfm_column()[22 + i] == "mab2."@ + tabfm_attention()[i],
{
}

/// A layer over the rows is an attention, and one over the context a scaled one.
pub proof fn law_row_layers(i: int)
    ensures
        tabicl_row().len() == 12,
        0 <= i < 12 ==> tabicl_row()[i] == tabicl_attention()[i],
        tabfm_row().len() == 21,
        0 <= i < 21 ==> tabfm_row()[i] == tabfm_attention()[i],
        tabicl_context().len() == 20,
        0 <= i < 12 ==> tabicl_context()[i] == tabicl_attention()[i],
        0 <= i < 8 ==> tabicl_context()[12 + i] == "attn.ssmax_layer."@ + scaling()[i],
        tabpfn_context().len() == 16,
        0 <= i < 8 ==> tabpfn_context()[i] == tabpfn_attention()[i],
        0 <= i < 8 ==> tabpfn_context()[8 + i] == "icl_attention.softmax_scaling_layer."@ + scaling()[i],
{
    reveal_strlit("");
    if 0 <= i < 12 {
        assert(""@ + tabicl_attention()[i] =~= tabicl_attention()[i]);
    }
    if 0 <= i < 21 {
        assert(""@ + tabfm_attention()[i] =~= tabfm_attention()[i]);
    }
    if 0 <= i < 8 {
        assert(""@ + tabpfn_attention()[i] =~= tabpfn_attention()[i]);
    }
}

} // verus!
