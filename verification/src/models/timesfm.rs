//! TimesFM: names of the checkpoint's tensors in a GGUF file.

use vstd::prelude::*;

use crate::models::names;
use crate::models::tirex;
use crate::text;

verus! {

/// The architecture of TimesFM 2.5.
#[derive(Clone, Debug)]
pub struct TimesFMConfig {
    pub input_patch_len: usize,
    pub output_patch_len: usize,
    pub output_quantile_len: usize,
    pub num_layers: usize,
    pub d_model: usize,
    pub d_ff: usize,
    pub num_heads: usize,
    pub head_dim: usize,
    /// The predicted quantile levels, as the bits of 32-bit floating-point numbers.
    pub quantiles: Vec<u32>,
    /// Outputs of one time step: the point forecast and the quantiles.
    pub n_outputs: usize,
    pub decode_index: usize,
    pub context_limit: usize,
    /// Held as the bits of a 64-bit floating-point number.
    pub rms_norm_eps: u64,
    /// Held as the bits of a 64-bit floating-point number.
    pub rope_theta: u64,
}

impl TimesFMConfig {
    /// Whether the parts agree: the heads share the model's width, and there is one output for
    /// each level and one for the point forecast.
    pub open spec fn consistent(&self) -> bool {
        &&& self.num_heads * self.head_dim == self.d_model
        &&& self.n_outputs == self.quantiles@.len() + 1
        &&& self.decode_index < self.n_outputs
    }

    /// The published model.
    pub fn new() -> (r: Self)
        ensures
            r.input_patch_len == 32,
            r.output_patch_len == 128,
            r.output_quantile_len == 1024,
            r.num_layers == 20,
            r.d_model == 1280,
            r.d_ff == 1280,
            r.num_heads == 16,
            r.head_dim == 80,
            r.quantiles@ == tirex::deciles(),
            r.n_outputs == 10,
            r.decode_index == 5,
            r.context_limit == 16384,
            r.rms_norm_eps == 0x3eb0_c6f7_a0b5_ed8d,
            r.rope_theta == 0x40c3_8800_0000_0000,
            r.consistent(),
    {
        TimesFMConfig {
            input_patch_len: 32,
            output_patch_len: 128,
            output_quantile_len: 1024,
            num_layers: 20,
            d_model: 1280,
            d_ff: 1280,
            num_heads: 16,
            head_dim: 80,
            quantiles: tirex::decile_levels(),
            n_outputs: 10,
            decode_index: 5,
            context_limit: 16384,
            rms_norm_eps: 0x3eb0_c6f7_a0b5_ed8d,
            rope_theta: 0x40c3_8800_0000_0000,
        }
    }
}

/// Tensors that stand outside the blocks.
pub open spec fn top_level(name: Seq<char>) -> Option<Seq<char>> {
    if name == "tokenizer.hidden_layer.weight"@ {
        Some("tokenizer.hidden.weight"@)
    } else if name == "tokenizer.hidden_layer.bias"@ {
        Some("tokenizer.hidden.bias"@)
    } else if name == "tokenizer.output_layer.weight"@ {
        Some("tokenizer.output.weight"@)
    } else if name == "tokenizer.output_layer.bias"@ {
        Some("tokenizer.output.bias"@)
    } else if name == "tokenizer.residual_layer.weight"@ {
        Some("tokenizer.skip.weight"@)
    } else if name == "tokenizer.residual_layer.bias"@ {
        Some("tokenizer.skip.bias"@)
    } else if name == "output_projection_point.hidden_layer.weight"@ {
        Some("out_point.hidden.weight"@)
    } else if name == "output_projection_point.output_layer.weight"@ {
        Some("out_point.output.weight"@)
    } else if name == "output_projection_point.residual_layer.weight"@ {
        Some("out_point.skip.weight"@)
    } else if name == "output_projection_quantiles.hidden_layer.weight"@ {
        Some("out_quantile.hidden.weight"@)
    } else if name == "output_projection_quantiles.output_layer.weight"@ {
        Some("out_quantile.output.weight"@)
    } else if name == "output_projection_quantiles.residual_layer.weight"@ {
        Some("out_quantile.skip.weight"@)
    } else {
        None
    }
}

/// Tensors of one block.
pub open spec fn block_leaf(leaf: Seq<char>) -> Option<Seq<char>> {
    if leaf == "pre_attn_ln.scale"@ {
        Some("pre_attn_norm.weight"@)
    } else if leaf == "post_attn_ln.scale"@ {
        Some("post_attn_norm.weight"@)
    } else if leaf == "attn.qkv_proj.weight"@ {
        Some("attn_qkv.weight"@)
    } else if leaf == "attn.out.weight"@ {
        Some("attn_out.weight"@)
    } else if leaf == "attn.query_ln.scale"@ {
        Some("attn_q_norm.weight"@)
    } else if leaf == "attn.key_ln.scale"@ {
        Some("attn_k_norm.weight"@)
    } else if leaf == "attn.per_dim_scale.per_dim_scale"@ {
        Some("attn_q_scale.weight"@)
    } else if leaf == "pre_ff_ln.scale"@ {
        Some("pre_ff_norm.weight"@)
    } else if leaf == "post_ff_ln.scale"@ {
        Some("post_ff_norm.weight"@)
    } else if leaf == "ff0.weight"@ {
        Some("ffn_up.weight"@)
    } else if leaf == "ff1.weight"@ {
        Some("ffn_down.weight"@)
    } else {
        None
    }
}

/// The GGUF name of a checkpoint's tensor, if it has one.
pub open spec fn mapped_name(name: Seq<char>) -> Option<Seq<char>> {
    if top_level(name) is Some {
        top_level(name)
    } else if text::has_prefix(name, "stacked_xf."@) {
        match names::numbered(text::without_prefix(name, "stacked_xf."@), u32::MAX as nat) {
            Some((n, leaf)) => names::numbered_name("blk."@, n, block_leaf(leaf)),
            None => None,
        }
    } else {
        None
    }
}

/// Maps a tensor that stands outside the blocks.
fn map_top_level(name: &str) -> (r: Option<&'static str>)
    ensures
        names::held_str(r) == top_level(name@),
{
    if text::same(name, "tokenizer.hidden_layer.weight") {
        Some("tokenizer.hidden.weight")
    } else if text::same(name, "tokenizer.hidden_layer.bias") {
        Some("tokenizer.hidden.bias")
    } else if text::same(name, "tokenizer.output_layer.weight") {
        Some("tokenizer.output.weight")
    } else if text::same(name, "tokenizer.output_layer.bias") {
        Some("tokenizer.output.bias")
    } else if text::same(name, "tokenizer.residual_layer.weight") {
        Some("tokenizer.skip.weight")
    } else if text::same(name, "tokenizer.residual_layer.bias") {
        Some("tokenizer.skip.bias")
    } else if text::same(name, "output_projection_point.hidden_layer.weight") {
        Some("out_point.hidden.weight")
    } else if text::same(name, "output_projection_point.output_layer.weight") {
        Some("out_point.output.weight")
    } else if text::same(name, "output_projection_point.residual_layer.weight") {
        Some("out_point.skip.weight")
    } else if text::same(name, "output_projection_quantiles.hidden_layer.weight") {
        Some("out_quantile.hidden.weight")
    } else if text::same(name, "output_projection_quantiles.output_layer.weight") {
        Some("out_quantile.output.weight")
    } else if text::same(name, "output_projection_quantiles.residual_layer.weight") {
        Some("out_quantile.skip.weight")
    } else {
        None
    }
}

/// Maps a tensor of one block.
fn map_block_leaf(leaf: &str) -> (r: Option<&'static str>)
    ensures
        names::held_str(r) == block_leaf(leaf@),
{
    if text::same(leaf, "pre_attn_ln.scale") {
        Some("pre_attn_norm.weight")
    } else if text::same(leaf, "post_attn_ln.scale") {
        Some("post_attn_norm.weight")
    } else if text::same(leaf, "attn.qkv_proj.weight") {
        Some("attn_qkv.weight")
    } else if text::same(leaf, "attn.out.weight") {
        Some("attn_out.weight")
    } else if text::same(leaf, "attn.query_ln.scale") {
        Some("attn_q_norm.weight")
    } else if text::same(leaf, "attn.key_ln.scale") {
        Some("attn_k_norm.weight")
    } else if text::same(leaf, "attn.per_dim_scale.per_dim_scale") {
        Some("attn_q_scale.weight")
    } else if text::same(leaf, "pre_ff_ln.scale") {
        Some("pre_ff_norm.weight")
    } else if text::same(leaf, "post_ff_ln.scale") {
        Some("post_ff_norm.weight")
    } else if text::same(leaf, "ff0.weight") {
        Some("ffn_up.weight")
    } else if text::same(leaf, "ff1.weight") {
        Some("ffn_down.weight")
    } else {
        None
    }
}

/// Maps a checkpoint's tensor name to its GGUF name.
pub fn map_tensor_name(hf_name: &str) -> (r: Option<String>)
    ensures
        names::held(r) == mapped_name(hf_name@),
{
    if let Some(mapped) = map_top_level(hf_name) {
        return Some(mapped.to_owned());
    }
    match text::strip_prefix(hf_name, "stacked_xf.") {
        Some(rest) => match names::split_number(rest, u32::MAX as u64) {
            Some((n, leaf)) => names::join_numbered_leaf("blk.", n, map_block_leaf(leaf)),
            None => None,
        },
        None => None,
    }
}

/// Block numbers are kept: tensor `leaf` of block `n` maps to the mapped leaf of block `n`.
pub proof fn law_blocks_keep_numbers(n: nat, leaf: Seq<char>)
    requires
        n <= u32::MAX,
    ensures
        mapped_name("stacked_xf."@ + (text::decimal(n) + "."@ + leaf)) == names::numbered_name(
            "blk."@,
            n,
            block_leaf(leaf),
        ),
{
    let rest = text::decimal(n) + "."@ + leaf;
    let name = "stacked_xf."@ + rest;
    names::lemma_prefix_removed("stacked_xf."@, rest);
    names::law_numbered_reads_back(n, leaf, u32::MAX as nat);
    reveal_strlit("stacked_xf.");
    assert(name[0] == 's');
    reveal_strlit("tokenizer.hidden_layer.weight");
    assert("tokenizer.hidden_layer.weight"@[0] == 't');
    reveal_strlit("tokenizer.hidden_layer.bias");
    assert("tokenizer.hidden_layer.bias"@[0] == 't');
    reveal_strlit("tokenizer.output_layer.weight");
    assert("tokenizer.output_layer.weight"@[0] == 't');
    reveal_strlit("tokenizer.output_layer.bias");
    assert("tokenizer.output_layer.bias"@[0] == 't');
    reveal_strlit("tokenizer.residual_layer.weight");
    assert("tokenizer.residual_layer.weight"@[0] == 't');
    reveal_strlit("tokenizer.residual_layer.bias");
    assert("tokenizer.residual_layer.bias"@[0] == 't');
    reveal_strlit("output_projection_point.hidden_layer.weight");
    assert("output_projection_point.hidden_layer.weight"@[0] == 'o');
    reveal_strlit("output_projection_point.output_layer.weight");
    assert("output_projection_point.output_layer.weight"@[0] == 'o');
    reveal_strlit("output_projection_point.residual_layer.weight");
    assert("output_projection_point.residual_layer.weight"@[0] == 'o');
    reveal_strlit("output_projection_quantiles.hidden_layer.weight");
    assert("output_projection_quantiles.hidden_layer.weight"@[0] == 'o');
    reveal_strlit("output_projection_quantiles.output_layer.weight");
    assert("output_projection_quantiles.output_layer.weight"@[0] == 'o');
    reveal_strlit("output_projection_quantiles.residual_layer.weight");
    assert("output_projection_quantiles.residual_layer.weight"@[0] == 'o');
}

/// Different names outside the blocks have different names.
proof fn lemma_top_level_apart(a: Seq<char>, b: Seq<char>)
    requires
        top_level(a) is Some,
        top_level(a) == top_level(b),
    ensures
        a == b,
{
    reveal_strlit("tokenizer.hidden.weight");
    reveal_strlit("tokenizer.hidden.bias");
    reveal_strlit("tokenizer.output.weight");
    reveal_strlit("tokenizer.output.bias");
    reveal_strlit("tokenizer.skip.weight");
    reveal_strlit("tokenizer.skip.bias");
    reveal_strlit("out_point.hidden.weight");
    reveal_strlit("out_point.output.weight");
    reveal_strlit("out_point.skip.weight");
    reveal_strlit("out_quantile.hidden.weight");
    reveal_strlit("out_quantile.output.weight");
    reveal_strlit("out_quantile.skip.weight");
    assert("tokenizer.hidden.weight"@.len() == 23 && "tokenizer.hidden.weight"@[0] == 't' && "tokenizer.hidden.weight"@[14] == 'e');
    assert("tokenizer.hidden.bias"@.len() == 21 && "tokenizer.hidden.bias"@[0] == 't' && "tokenizer.hidden.bias"@[14] == 'e');
    assert("tokenizer.output.weight"@.len() == 23 && "tokenizer.output.weight"@[0] == 't' && "tokenizer.output.weight"@[14] == 'u');
    assert("tokenizer.output.bias"@.len() == 21 && "tokenizer.output.bias"@[0] == 't' && "tokenizer.output.bias"@[14] == 'u');
    assert("tokenizer.skip.weight"@.len() == 21 && "tokenizer.skip.weight"@[0] == 't' && "tokenizer.skip.weight"@[14] == '.');
    assert("tokenizer.skip.bias"@.len() == 19 && "tokenizer.skip.bias"@[0] == 't' && "tokenizer.skip.bias"@[14] == '.');
    assert("out_point.hidden.weight"@.len() == 23 && "out_point.hidden.weight"@[0] == 'o' && "out_point.hidden.weight"@[14] == 'e');
    assert("out_point.output.weight"@.len() == 23 && "out_point.output.weight"@[0] == 'o' && "out_point.output.weight"@[14] == 'u');
    assert("out_point.skip.weight"@.len() == 21 && "out_point.skip.weight"@[0] == 'o' && "out_point.skip.weight"@[14] == '.');
    assert("out_quantile.hidden.weight"@.len() == 26 && "out_quantile.hidden.weight"@[0] == 'o' && "out_quantile.hidden.weight"@[14] == 'i');
    assert("out_quantile.output.weight"@.len() == 26 && "out_quantile.output.weight"@[0] == 'o' && "out_quantile.output.weight"@[14] == 'u');
    assert("out_quantile.skip.weight"@.len() == 24 && "out_quantile.skip.weight"@[0] == 'o' && "out_quantile.skip.weight"@[14] == 'k');
    let g = top_level(a)->0;
    assert(g[0] == top_level(b)->0[0] && g[14] == top_level(b)->0[14]);
}

/// Different leaves of a block have different names.
proof fn lemma_block_leaf_apart(a: Seq<char>, b: Seq<char>)
    requires
        block_leaf(a) is Some,
        block_leaf(a) == block_leaf(b),
    ensures
        a == b,
{
    reveal_strlit("pre_attn_norm.weight");
    reveal_strlit("post_attn_norm.weight");
    reveal_strlit("attn_qkv.weight");
    reveal_strlit("attn_out.weight");
    reveal_strlit("attn_q_norm.weight");
    reveal_strlit("attn_k_norm.weight");
    reveal_strlit("attn_q_scale.weight");
    reveal_strlit("pre_ff_norm.weight");
    reveal_strlit("post_ff_norm.weight");
    reveal_strlit("ffn_up.weight");
    reveal_strlit("ffn_down.weight");
    assert("pre_attn_norm.weight"@.len() == 20 && "pre_attn_norm.weight"@[0] == 'p' && "pre_attn_norm.weight"@[5] == 't');
    assert("post_attn_norm.weight"@.len() == 21 && "post_attn_norm.weight"@[0] == 'p' && "post_attn_norm.weight"@[5] == 'a');
    assert("attn_qkv.weight"@.len() == 15 && "attn_qkv.weight"@[0] == 'a' && "attn_qkv.weight"@[5] == 'q');
    assert("attn_out.weight"@.len() == 15 && "attn_out.weight"@[0] == 'a' && "attn_out.weight"@[5] == 'o');
    assert("attn_q_norm.weight"@.len() == 18 && "attn_q_norm.weight"@[0] == 'a' && "attn_q_norm.weight"@[5] == 'q');
    assert("attn_k_norm.weight"@.len() == 18 && "attn_k_norm.weight"@[0] == 'a' && "attn_k_norm.weight"@[5] == 'k');
    assert("attn_q_scale.weight"@.len() == 19 && "attn_q_scale.weight"@[0] == 'a' && "attn_q_scale.weight"@[5] == 'q');
    assert("pre_ff_norm.weight"@.len() == 18 && "pre_ff_norm.weight"@[0] == 'p' && "pre_ff_norm.weight"@[5] == 'f');
    assert("post_ff_norm.weight"@.len() == 19 && "post_ff_norm.weight"@[0] == 'p' && "post_ff_norm.weight"@[5] == 'f');
    assert("ffn_up.weight"@.len() == 13 && "ffn_up.weight"@[0] == 'f' && "ffn_up.weight"@[5] == 'p');
    assert("ffn_down.weight"@.len() == 15 && "ffn_down.weight"@[0] == 'f' && "ffn_down.weight"@[5] == 'o');
    let g = block_leaf(a)->0;
    assert(g[0] == block_leaf(b)->0[0] && g[5] == block_leaf(b)->0[5]);
}

/// No name outside the blocks starts as a block's does.
proof fn lemma_top_level_starts(a: Seq<char>)
    requires
        top_level(a) is Some,
    ensures
        top_level(a)->0.len() > 0,
        top_level(a)->0[0] != 'b',
{
    reveal_strlit("tokenizer.hidden.weight");
    reveal_strlit("tokenizer.hidden.bias");
    reveal_strlit("tokenizer.output.weight");
    reveal_strlit("tokenizer.output.bias");
    reveal_strlit("tokenizer.skip.weight");
    reveal_strlit("tokenizer.skip.bias");
    reveal_strlit("out_point.hidden.weight");
    reveal_strlit("out_point.output.weight");
    reveal_strlit("out_point.skip.weight");
    reveal_strlit("out_quantile.hidden.weight");
    reveal_strlit("out_quantile.output.weight");
    reveal_strlit("out_quantile.skip.weight");
}

/// Different tensors keep different names, where the blocks' numbers are written as their decimals.
pub proof fn law_names_kept_apart(a: Seq<char>, b: Seq<char>)
    requires
        names::canonical(a, u32::MAX as nat),
        names::canonical(b, u32::MAX as nat),
        mapped_name(a) is Some,
        mapped_name(b) is Some,
        a != b,
    ensures
        mapped_name(a) != mapped_name(b),
{
    reveal_strlit("blk.");
    reveal_strlit("stacked_xf.");
    if mapped_name(a) == mapped_name(b) {
        if top_level(a) is Some {
            lemma_top_level_starts(a);
            if top_level(b) is Some {
                lemma_top_level_apart(a, b);
            }
        } else if top_level(b) is Some {
            lemma_top_level_starts(b);
        } else {
            let (_n, la) = names::numbered(text::without_prefix(a, "stacked_xf."@), u32::MAX as nat)->0;
            let (_m, lb) = names::numbered(text::without_prefix(b, "stacked_xf."@), u32::MAX as nat)->0;
            if block_leaf(la) == block_leaf(lb) {
                lemma_block_leaf_apart(la, lb);
            }
            names::lemma_numbered_same(
                a,
                b,
                "stacked_xf."@,
                u32::MAX as nat,
                "blk."@,
                block_leaf(la)->0,
                block_leaf(lb)->0,
            );
        }
    }
}

/// The tensors outside the blocks, one by one.
proof fn lemma_top_level_listed()
    ensures
        top_level("tokenizer.hidden_layer.weight"@) == Some("tokenizer.hidden.weight"@),
        top_level("tokenizer.hidden_layer.bias"@) == Some("tokenizer.hidden.bias"@),
        top_level("tokenizer.output_layer.weight"@) == Some("tokenizer.output.weight"@),
        top_level("tokenizer.output_layer.bias"@) == Some("tokenizer.output.bias"@),
        top_level("tokenizer.residual_layer.weight"@) == Some("tokenizer.skip.weight"@),
        top_level("tokenizer.residual_layer.bias"@) == Some("tokenizer.skip.bias"@),
        top_level("output_projection_point.hidden_layer.weight"@) == Some("out_point.hidden.weight"@),
        top_level("output_projection_point.output_layer.weight"@) == Some("out_point.output.weight"@),
        top_level("output_projection_point.residual_layer.weight"@) == Some("out_point.skip.weight"@),
        top_level("output_projection_quantiles.hidden_layer.weight"@) == Some("out_quantile.hidden.weight"@),
        top_level("output_projection_quantiles.output_layer.weight"@) == Some("out_quantile.output.weight"@),
        top_level("output_projection_quantiles.residual_layer.weight"@) == Some("out_quantile.skip.weight"@),
{
    reveal_strlit("tokenizer.hidden_layer.weight");
    reveal_strlit("tokenizer.hidden_layer.bias");
    reveal_strlit("tokenizer.output_layer.weight");
    reveal_strlit("tokenizer.output_layer.bias");
    reveal_strlit("tokenizer.residual_layer.weight");
    reveal_strlit("tokenizer.residual_layer.bias");
    reveal_strlit("output_projection_point.hidden_layer.weight");
    reveal_strlit("output_projection_point.output_layer.weight");
    reveal_strlit("output_projection_point.residual_layer.weight");
    reveal_strlit("output_projection_quantiles.hidden_layer.weight");
    reveal_strlit("output_projection_quantiles.output_layer.weight");
    reveal_strlit("output_projection_quantiles.residual_layer.weight");
    assert("tokenizer.hidden_layer.weight"@.len() == 29 && "tokenizer.hidden_layer.weight"@[15] == 'n');
    assert("tokenizer.hidden_layer.bias"@.len() == 27 && "tokenizer.hidden_layer.bias"@[13] == 'd');
    assert("tokenizer.output_layer.weight"@.len() == 29 && "tokenizer.output_layer.weight"@[15] == 't');
    assert("tokenizer.output_layer.bias"@.len() == 27 && "tokenizer.output_layer.bias"@[13] == 'p');
    assert("tokenizer.residual_layer.weight"@.len() == 31 && "tokenizer.residual_layer.weight"@[17] == 'l');
    assert("tokenizer.residual_layer.bias"@.len() == 29 && "tokenizer.residual_layer.bias"@[15] == 'u');
    assert("output_projection_point.hidden_layer.weight"@.len() == 43 && "output_projection_point.hidden_layer.weight"@[29] == 'n');
    assert("output_projection_point.output_layer.weight"@.len() == 43 && "output_projection_point.output_layer.weight"@[29] == 't');
    assert("output_projection_point.residual_layer.weight"@.len() == 45 && "output_projection_point.residual_layer.weight"@[31] == 'l');
    assert("output_projection_quantiles.hidden_layer.weight"@.len() == 47 && "output_projection_quantiles.hidden_layer.weight"@[33] == 'n');
    assert("output_projection_quantiles.output_layer.weight"@.len() == 47 && "output_projection_quantiles.output_layer.weight"@[33] == 't');
    assert("output_projection_quantiles.residual_layer.weight"@.len() == 49 && "output_projection_quantiles.residual_layer.weight"@[35] == 'l');
}

/// The tensors of a block, one by one.
proof fn lemma_block_leaves_listed()
    ensures
        block_leaf("pre_attn_ln.scale"@) == Some("pre_attn_norm.weight"@),
        block_leaf("post_attn_ln.scale"@) == Some("post_attn_norm.weight"@),
        block_leaf("attn.qkv_proj.weight"@) == Some("attn_qkv.weight"@),
        block_leaf("attn.out.weight"@) == Some("attn_out.weight"@),
        block_leaf("attn.query_ln.scale"@) == Some("attn_q_norm.weight"@),
        block_leaf("attn.key_ln.scale"@) == Some("attn_k_norm.weight"@),
        block_leaf("attn.per_dim_scale.per_dim_scale"@) == Some("attn_q_scale.weight"@),
        block_leaf("pre_ff_ln.scale"@) == Some("pre_ff_norm.weight"@),
        block_leaf("post_ff_ln.scale"@) == Some("post_ff_norm.weight"@),
        block_leaf("ff0.weight"@) == Some("ffn_up.weight"@),
        block_leaf("ff1.weight"@) == Some("ffn_down.weight"@),
{
    reveal_strlit("pre_attn_ln.scale");
    reveal_strlit("post_attn_ln.scale");
    reveal_strlit("attn.qkv_proj.weight");
    reveal_strlit("attn.out.weight");
    reveal_strlit("attn.query_ln.scale");
    reveal_strlit("attn.key_ln.scale");
    reveal_strlit("attn.per_dim_scale.per_dim_scale");
    reveal_strlit("pre_ff_ln.scale");
    reveal_strlit("post_ff_ln.scale");
    reveal_strlit("ff0.weight");
    reveal_strlit("ff1.weight");
    assert("pre_attn_ln.scale"@.len() == 17 && "pre_attn_ln.scale"@[2] == 'e');
    assert("post_attn_ln.scale"@.len() == 18 && "post_attn_ln.scale"@[2] == 's');
    assert("attn.qkv_proj.weight"@.len() == 20 && "attn.qkv_proj.weight"@[2] == 't');
    assert("attn.out.weight"@.len() == 15 && "attn.out.weight"@[2] == 't');
    assert("attn.query_ln.scale"@.len() == 19 && "attn.query_ln.scale"@[2] == 't');
    assert("attn.key_ln.scale"@.len() == 17 && "attn.key_ln.scale"@[2] == 't');
    assert("attn.per_dim_scale.per_dim_scale"@.len() == 32 && "attn.per_dim_scale.per_dim_scale"@[2] == 't');
    assert("pre_ff_ln.scale"@.len() == 15 && "pre_ff_ln.scale"@[2] == 'e');
    assert("post_ff_ln.scale"@.len() == 16 && "post_ff_ln.scale"@[2] == 's');
    assert("ff0.weight"@.len() == 10 && "ff0.weight"@[2] == '0');
    assert("ff1.weight"@.len() == 10 && "ff1.weight"@[2] == '1');
}

/// What the tensors outside the blocks are named.
pub proof fn law_top_level_names()
    ensures
        mapped_name("tokenizer.hidden_layer.weight"@) == Some("tokenizer.hidden.weight"@),
        mapped_name("tokenizer.hidden_layer.bias"@) == Some("tokenizer.hidden.bias"@),
        mapped_name("tokenizer.output_layer.weight"@) == Some("tokenizer.output.weight"@),
        mapped_name("tokenizer.output_layer.bias"@) == Some("tokenizer.output.bias"@),
        mapped_name("tokenizer.residual_layer.weight"@) == Some("tokenizer.skip.weight"@),
        mapped_name("tokenizer.residual_layer.bias"@) == Some("tokenizer.skip.bias"@),
        mapped_name("output_projection_point.hidden_layer.weight"@) == Some("out_point.hidden.weight"@),
        mapped_name("output_projection_point.output_layer.weight"@) == Some("out_point.output.weight"@),
        mapped_name("output_projection_point.residual_layer.weight"@) == Some("out_point.skip.weight"@),
        mapped_name("output_projection_quantiles.hidden_layer.weight"@) == Some("out_quantile.hidden.weight"@),
        mapped_name("output_projection_quantiles.output_layer.weight"@) == Some("out_quantile.output.weight"@),
        mapped_name("output_projection_quantiles.residual_layer.weight"@) == Some("out_quantile.skip.weight"@),
{
    lemma_top_level_listed();
}

/// What the tensors of every block are named.
pub proof fn law_block_names(n: nat)
    requires
        n <= u32::MAX,
    ensures
        mapped_name("stacked_xf."@ + (text::decimal(n) + "."@ + "pre_attn_ln.scale"@)) == Some(
            "blk."@ + text::decimal(n) + "."@ + "pre_attn_norm.weight"@,
        ),
        mapped_name("stacked_xf."@ + (text::decimal(n) + "."@ + "post_attn_ln.scale"@)) == Some(
            "blk."@ + text::decimal(n) + "."@ + "post_attn_norm.weight"@,
        ),
        mapped_name("stacked_xf."@ + (text::decimal(n) + "."@ + "attn.qkv_proj.weight"@)) == Some(
            "blk."@ + text::decimal(n) + "."@ + "attn_qkv.weight"@,
        ),
        mapped_name("stacked_xf."@ + (text::decimal(n) + "."@ + "attn.out.weight"@)) == Some(
            "blk."@ + text::decimal(n) + "."@ + "attn_out.weight"@,
        ),
        mapped_name("stacked_xf."@ + (text::decimal(n) + "."@ + "attn.query_ln.scale"@)) == Some(
            "blk."@ + text::decimal(n) + "."@ + "attn_q_norm.weight"@,
        ),
        mapped_name("stacked_xf."@ + (text::decimal(n) + "."@ + "attn.key_ln.scale"@)) == Some(
            "blk."@ + text::decimal(n) + "."@ + "attn_k_norm.weight"@,
        ),
        mapped_name("stacked_xf."@ + (text::decimal(n) + "."@ + "attn.per_dim_scale.per_dim_scale"@)) == Some(
            "blk."@ + text::decimal(n) + "."@ + "attn_q_scale.weight"@,
        ),
        mapped_name("stacked_xf."@ + (text::decimal(n) + "."@ + "pre_ff_ln.scale"@)) == Some(
            "blk."@ + text::decimal(n) + "."@ + "pre_ff_norm.weight"@,
        ),
        mapped_name("stacked_xf."@ + (text::decimal(n) + "."@ + "post_ff_ln.scale"@)) == Some(
            "blk."@ + text::decimal(n) + "."@ + "post_ff_norm.weight"@,
        ),
        mapped_name("stacked_xf."@ + (text::decimal(n) + "."@ + "ff0.weight"@)) == Some(
            "blk."@ + text::decimal(n) + "."@ + "ffn_up.weight"@,
        ),
        mapped_name("stacked_xf."@ + (text::decimal(n) + "."@ + "ff1.weight"@)) == Some(
            "blk."@ + text::decimal(n) + "."@ + "ffn_down.weight"@,
        ),
{
    lemma_block_leaves_listed();
    law_blocks_keep_numbers(n, "pre_attn_ln.scale"@);
    law_blocks_keep_numbers(n, "post_attn_ln.scale"@);
    law_blocks_keep_numbers(n, "attn.qkv_proj.weight"@);
    law_blocks_keep_numbers(n, "attn.out.weight"@);
    law_blocks_keep_numbers(n, "attn.query_ln.scale"@);
    law_blocks_keep_numbers(n, "attn.key_ln.scale"@);
    law_blocks_keep_numbers(n, "attn.per_dim_scale.per_dim_scale"@);
    law_blocks_keep_numbers(n, "pre_ff_ln.scale"@);
    law_blocks_keep_numbers(n, "post_ff_ln.scale"@);
    law_blocks_keep_numbers(n, "ff0.weight"@);
    law_blocks_keep_numbers(n, "ff1.weight"@);
}

/// No other tensor has a name: it stands outside the blocks, or it is one of those of a block.
pub proof fn law_nothing_else_is_named(name: Seq<char>)
    requires
        mapped_name(name) is Some,
    ensures
        ({
            ||| name == "tokenizer.hidden_layer.weight"@
            ||| name == "tokenizer.hidden_layer.bias"@
            ||| name == "tokenizer.output_layer.weight"@
            ||| name == "tokenizer.output_layer.bias"@
            ||| name == "tokenizer.residual_layer.weight"@
            ||| name == "tokenizer.residual_layer.bias"@
            ||| name == "output_projection_point.hidden_layer.weight"@
            ||| name == "output_projection_point.output_layer.weight"@
            ||| name == "output_projection_point.residual_layer.weight"@
            ||| name == "output_projection_quantiles.hidden_layer.weight"@
            ||| name == "output_projection_quantiles.output_layer.weight"@
            ||| name == "output_projection_quantiles.residual_layer.weight"@
            ||| text::has_prefix(name, "stacked_xf."@) && ({
                ||| text::has_suffix(name, "pre_attn_ln.scale"@)
                ||| text::has_suffix(name, "post_attn_ln.scale"@)
                ||| text::has_suffix(name, "attn.qkv_proj.weight"@)
                ||| text::has_suffix(name, "attn.out.weight"@)
                ||| text::has_suffix(name, "attn.query_ln.scale"@)
                ||| text::has_suffix(name, "attn.key_ln.scale"@)
                ||| text::has_suffix(name, "attn.per_dim_scale.per_dim_scale"@)
                ||| text::has_suffix(name, "pre_ff_ln.scale"@)
                ||| text::has_suffix(name, "post_ff_ln.scale"@)
                ||| text::has_suffix(name, "ff0.weight"@)
                ||| text::has_suffix(name, "ff1.weight"@)
            })
        }),
{
    if top_level(name) is None {
        let rest = text::without_prefix(name, "stacked_xf."@);
        let (_n, leaf) = names::numbered(rest, u32::MAX as nat)->0;
        names::lemma_numbered_ends(name, "stacked_xf."@, u32::MAX as nat);
        assert(block_leaf(leaf) is Some);
    }
}

} // verus!
