//! MOMENT: names of the checkpoint's tensors in a GGUF file.

use vstd::prelude::*;

use crate::models::names;
use crate::text;

verus! {

/// The architecture of MOMENT-1-large.
#[derive(Clone, Copy, Debug)]
pub struct MomentConfig {
    pub d_model: usize,
    pub n_layers: usize,
    pub n_heads: usize,
    pub head_dim: usize,
    pub d_ff: usize,
    pub seq_len: usize,
    pub patch_len: usize,
    pub patch_stride: usize,
    pub num_patches: usize,
    pub rel_attn_num_buckets: usize,
    pub rel_attn_max_distance: usize,
    /// Held as the bits of a 64-bit floating-point number.
    pub layer_norm_eps: u64,
}

impl MomentConfig {
    /// The published model.
    pub fn default() -> (r: Self)
        ensures
            r.d_model == 1024,
            r.n_layers == 24,
            r.n_heads == 16,
            r.head_dim == 64,
            r.d_ff == 2816,
            r.seq_len == 512,
            r.patch_len == 8,
            r.patch_stride == 8,
            r.num_patches == 64,
            r.rel_attn_num_buckets == 32,
            r.rel_attn_max_distance == 128,
            r.layer_norm_eps == 0x3eb0_c6f7_a0b5_ed8d,
    {
        MomentConfig {
            d_model: 1024,
            n_layers: 24,
            n_heads: 16,
            head_dim: 64,
            d_ff: 2816,
            seq_len: 512,
            patch_len: 8,
            patch_stride: 8,
            num_patches: 64,
            rel_attn_num_buckets: 32,
            rel_attn_max_distance: 128,
            layer_norm_eps: 0x3eb0_c6f7_a0b5_ed8d,
        }
    }
}

/// Tensors that stand outside the blocks.
pub open spec fn top_level(name: Seq<char>) -> Option<Seq<char>> {
    if name == "patch_embedding.value_embedding.weight"@ {
        Some("patch_embed.weight"@)
    } else if name == "patch_embedding.position_embedding.pe"@ {
        Some("pos_embed.pe"@)
    } else if name == "patch_embedding.mask_embedding"@ {
        Some("mask_embed"@)
    } else if name == "encoder.embed_tokens.weight"@ {
        Some("token_embed.weight"@)
    } else if name == "encoder.final_layer_norm.weight"@ {
        Some("norm_f.weight"@)
    } else if name == "head.linear.weight"@ {
        Some("head.weight"@)
    } else if name == "head.linear.bias"@ {
        Some("head.bias"@)
    } else {
        None
    }
}

/// Tensors of one block.
pub open spec fn block_leaf(leaf: Seq<char>) -> Option<Seq<char>> {
    if leaf == "layer.0.SelfAttention.q.weight"@ {
        Some("attn_q.weight"@)
    } else if leaf == "layer.0.SelfAttention.k.weight"@ {
        Some("attn_k.weight"@)
    } else if leaf == "layer.0.SelfAttention.v.weight"@ {
        Some("attn_v.weight"@)
    } else if leaf == "layer.0.SelfAttention.o.weight"@ {
        Some("attn_o.weight"@)
    } else if leaf == "layer.0.SelfAttention.relative_attention_bias.weight"@ {
        Some("attn_rel_bias.weight"@)
    } else if leaf == "layer.0.layer_norm.weight"@ {
        Some("attn_norm.weight"@)
    } else if leaf == "layer.1.DenseReluDense.wi_0.weight"@ {
        Some("ffn_wi0.weight"@)
    } else if leaf == "layer.1.DenseReluDense.wi_1.weight"@ {
        Some("ffn_wi1.weight"@)
    } else if leaf == "layer.1.DenseReluDense.wo.weight"@ {
        Some("ffn_wo.weight"@)
    } else if leaf == "layer.1.layer_norm.weight"@ {
        Some("ffn_norm.weight"@)
    } else {
        None
    }
}

/// The GGUF name of a checkpoint's tensor, if it has one.
pub open spec fn mapped_name(name: Seq<char>) -> Option<Seq<char>> {
    if top_level(name) is Some {
        top_level(name)
    } else if text::has_prefix(name, "encoder.block."@) {
        match names::numbered(text::without_prefix(name, "encoder.block."@), u32::MAX as nat) {
            Some((n, leaf)) => names::numbered_name("blk."@, n, block_leaf(leaf)),
            None => None,
        }
    } else {
        None
    }
}

/// Maps a tensor that stands outside the blocks.
fn map_top_level(name: &str) -> (r: Option<&'static str>)
    ensures
        names::held_str(r) == top_level(name@),
{
    if text::same(name, "patch_embedding.value_embedding.weight") {
        Some("patch_embed.weight")
    } else if text::same(name, "patch_embedding.position_embedding.pe") {
        Some("pos_embed.pe")
    } else if text::same(name, "patch_embedding.mask_embedding") {
        Some("mask_embed")
    } else if text::same(name, "encoder.embed_tokens.weight") {
        Some("token_embed.weight")
    } else if text::same(name, "encoder.final_layer_norm.weight") {
        Some("norm_f.weight")
    } else if text::same(name, "head.linear.weight") {
        Some("head.weight")
    } else if text::same(name, "head.linear.bias") {
        Some("head.bias")
    } else {
        None
    }
}

/// Maps a tensor of one block.
fn map_block_leaf(leaf: &str) -> (r: Option<&'static str>)
    ensures
        names::held_str(r) == block_leaf(leaf@),
{
    if text::same(leaf, "layer.0.SelfAttention.q.weight") {
        Some("attn_q.weight")
    } else if text::same(leaf, "layer.0.SelfAttention.k.weight") {
        Some("attn_k.weight")
    } else if text::same(leaf, "layer.0.SelfAttention.v.weight") {
        Some("attn_v.weight")
    } else if text::same(leaf, "layer.0.SelfAttention.o.weight") {
        Some("attn_o.weight")
    } else if text::same(leaf, "layer.0.SelfAttention.relative_attention_bias.weight") {
        Some("attn_rel_bias.weight")
    } else if text::same(leaf, "layer.0.layer_norm.weight") {
        Some("attn_norm.weight")
    } else if text::same(leaf, "layer.1.DenseReluDense.wi_0.weight") {
        Some("ffn_wi0.weight")
    } else if text::same(leaf, "layer.1.DenseReluDense.wi_1.weight") {
        Some("ffn_wi1.weight")
    } else if text::same(leaf, "layer.1.DenseReluDense.wo.weight") {
        Some("ffn_wo.weight")
    } else if text::same(leaf, "layer.1.layer_norm.weight") {
        Some("ffn_norm.weight")
    } else {
        None
    }
}

/// Maps a checkpoint's tensor name to its GGUF name.
pub fn map_tensor_name(name: &str) -> (r: Option<String>)
    ensures
        names::held(r) == mapped_name(name@),
{
    if let Some(mapped) = map_top_level(name) {
        return Some(mapped.to_owned());
    }
    match text::strip_prefix(name, "encoder.block.") {
        Some(rest) => match names::split_number(rest, u32::MAX as u64) {
            Some((n, leaf)) => names::join_numbered_leaf("blk.", n, map_block_leaf(leaf)),
            None => None,
        },
        None => None,
    }
}

/// Block numbers are kept: tensor `leaf` of block `n` maps to the mapped leaf of block `n`.
pub proof fn law_blocks_keep_numbers(n: nat, leaf: Seq<char>)
    requires
        n <= u32::MAX,
    ensures
        mapped_name("encoder.block."@ + (text::decimal(n) + "."@ + leaf)) == names::numbered_name(
            "blk."@,
            n,
            block_leaf(leaf),
        ),
{
    let rest = text::decimal(n) + "."@ + leaf;
    let name = "encoder.block."@ + rest;
    names::lemma_prefix_removed("encoder.block."@, rest);
    names::law_numbered_reads_back(n, leaf, u32::MAX as nat);
    reveal_strlit("encoder.block.");
    assert(name[0] == 'e');
    reveal_strlit("patch_embedding.value_embedding.weight");
    assert("patch_embedding.value_embedding.weight"@[0] == 'p');
    reveal_strlit("patch_embedding.position_embedding.pe");
    assert("patch_embedding.position_embedding.pe"@[0] == 'p');
    reveal_strlit("patch_embedding.mask_embedding");
    assert("patch_embedding.mask_embedding"@[0] == 'p');
    reveal_strlit("head.linear.weight");
    assert("head.linear.weight"@[0] == 'h');
    reveal_strlit("head.linear.bias");
    assert("head.linear.bias"@[0] == 'h');
    assert(name[8] == 'b');
    reveal_strlit("encoder.embed_tokens.weight");
    assert("encoder.embed_tokens.weight"@[8] == 'e');
    reveal_strlit("encoder.final_layer_norm.weight");
    assert("encoder.final_layer_norm.weight"@[8] == 'f');
}

/// Different names outside the blocks have different names.
proof fn lemma_top_level_apart(a: Seq<char>, b: Seq<char>)
    requires
        top_level(a) is Some,
        top_level(a) == top_level(b),
    ensures
        a == b,
{
    reveal_strlit("patch_embed.weight");
    reveal_strlit("pos_embed.pe");
    reveal_strlit("mask_embed");
    reveal_strlit("token_embed.weight");
    reveal_strlit("norm_f.weight");
    reveal_strlit("head.weight");
    reveal_strlit("head.bias");
    assert("patch_embed.weight"@.len() == 18 && "patch_embed.weight"@[0] == 'p');
    assert("pos_embed.pe"@.len() == 12 && "pos_embed.pe"@[0] == 'p');
    assert("mask_embed"@.len() == 10 && "mask_embed"@[0] == 'm');
    assert("token_embed.weight"@.len() == 18 && "token_embed.weight"@[0] == 't');
    assert("norm_f.weight"@.len() == 13 && "norm_f.weight"@[0] == 'n');
    assert("head.weight"@.len() == 11 && "head.weight"@[0] == 'h');
    assert("head.bias"@.len() == 9 && "head.bias"@[0] == 'h');
    let g = top_level(a)->0;
    assert(g[0] == top_level(b)->0[0]);
}

/// Different leaves of a block have different names.
proof fn lemma_block_leaf_apart(a: Seq<char>, b: Seq<char>)
    requires
        block_leaf(a) is Some,
        block_leaf(a) == block_leaf(b),
    ensures
        a == b,
{
    reveal_strlit("attn_q.weight");
    reveal_strlit("attn_k.weight");
    reveal_strlit("attn_v.weight");
    reveal_strlit("attn_o.weight");
    reveal_strlit("attn_rel_bias.weight");
    reveal_strlit("attn_norm.weight");
    reveal_strlit("ffn_wi0.weight");
    reveal_strlit("ffn_wi1.weight");
    reveal_strlit("ffn_wo.weight");
    reveal_strlit("ffn_norm.weight");
    assert("attn_q.weight"@.len() == 13 && "attn_q.weight"@[0] == 'a' && "attn_q.weight"@[5] == 'q');
    assert("attn_k.weight"@.len() == 13 && "attn_k.weight"@[0] == 'a' && "attn_k.weight"@[5] == 'k');
    assert("attn_v.weight"@.len() == 13 && "attn_v.weight"@[0] == 'a' && "attn_v.weight"@[5] == 'v');
    assert("attn_o.weight"@.len() == 13 && "attn_o.weight"@[0] == 'a' && "attn_o.weight"@[5] == 'o');
    assert("attn_rel_bias.weight"@.len() == 20 && "attn_rel_bias.weight"@[0] == 'a' && "attn_rel_bias.weight"@[12] == 's');
    assert("attn_norm.weight"@.len() == 16 && "attn_norm.weight"@[0] == 'a' && "attn_norm.weight"@[8] == 'm');
    assert("ffn_wi0.weight"@.len() == 14 && "ffn_wi0.weight"@[0] == 'f' && "ffn_wi0.weight"@[6] == '0');
    assert("ffn_wi1.weight"@.len() == 14 && "ffn_wi1.weight"@[0] == 'f' && "ffn_wi1.weight"@[6] == '1');
    assert("ffn_wo.weight"@.len() == 13 && "ffn_wo.weight"@[0] == 'f' && "ffn_wo.weight"@[5] == 'o');
    assert("ffn_norm.weight"@.len() == 15 && "ffn_norm.weight"@[0] == 'f' && "ffn_norm.weight"@[7] == 'm');
    let g = block_leaf(a)->0;
    assert(g[0] == block_leaf(b)->0[0] && g[g.len() - 8] == block_leaf(b)->0[g.len() - 8]);
}

/// No name outside the blocks starts as a block's does.
proof fn lemma_top_level_starts(a: Seq<char>)
    requires
        top_level(a) is Some,
    ensures
        top_level(a)->0.len() > 0,
        top_level(a)->0[0] != 'b',
{
    reveal_strlit("patch_embed.weight");
    reveal_strlit("pos_embed.pe");
    reveal_strlit("mask_embed");
    reveal_strlit("token_embed.weight");
    reveal_strlit("norm_f.weight");
    reveal_strlit("head.weight");
    reveal_strlit("head.bias");
}

/// Different tensors keep different names, where the blocks' numbers are written as their decimals.
pub proof fn law_names_kept_apart(a: Seq<char>, b: Seq<char>)
    requires
        names::canonical(a, u32::MAX as nat),
        names::canonical(b, u32::MAX as nat),
        mapped_name(a) is Some,
        mapped_name(b) is Some,
        a != b,
    ensures
        mapped_name(a) != mapped_name(b),
{
    reveal_strlit("blk.");
    reveal_strlit("encoder.block.");
    if mapped_name(a) == mapped_name(b) {
        if top_level(a) is Some {
            lemma_top_level_starts(a);
            if top_level(b) is Some {
                lemma_top_level_apart(a, b);
            }
        } else if top_level(b) is Some {
            lemma_top_level_starts(b);
        } else {
            let (_n, la) = names::numbered(text::without_prefix(a, "encoder.block."@), u32::MAX as nat)->0;
            let (_m, lb) = names::numbered(text::without_prefix(b, "encoder.block."@), u32::MAX as nat)->0;
            if block_leaf(la) == block_leaf(lb) {
                lemma_block_leaf_apart(la, lb);
            }
            names::lemma_numbered_same(
                a,
                b,
                "encoder.block."@,
                u32::MAX as nat,
                "blk."@,
                block_leaf(la)->0,
                block_leaf(lb)->0,
            );
        }
    }
}

/// The tensors outside the blocks, one by one.
proof fn lemma_top_level_listed()
    ensures
        top_level("patch_embedding.value_embedding.weight"@) == Some("patch_embed.weight"@),
        top_level("patch_embedding.position_embedding.pe"@) == Some("pos_embed.pe"@),
        top_level("patch_embedding.mask_embedding"@) == Some("mask_embed"@),
        top_level("encoder.embed_tokens.weight"@) == Some("token_embed.weight"@),
        top_level("encoder.final_layer_norm.weight"@) == Some("norm_f.weight"@),
        top_level("head.linear.weight"@) == Some("head.weight"@),
        top_level("head.linear.bias"@) == Some("head.bias"@),
{
    reveal_strlit("patch_embedding.value_embedding.weight");
    reveal_strlit("patch_embedding.position_embedding.pe");
    reveal_strlit("patch_embedding.mask_embedding");
    reveal_strlit("encoder.embed_tokens.weight");
    reveal_strlit("encoder.final_layer_norm.weight");
    reveal_strlit("head.linear.weight");
    reveal_strlit("head.linear.bias");
    assert("patch_embedding.value_embedding.weight"@.len() == 38);
    assert("patch_embedding.position_embedding.pe"@.len() == 37);
    assert("patch_embedding.mask_embedding"@.len() == 30);
    assert("encoder.embed_tokens.weight"@.len() == 27);
    assert("encoder.final_layer_norm.weight"@.len() == 31);
    assert("head.linear.weight"@.len() == 18);
    assert("head.linear.bias"@.len() == 16);
}

/// The tensors of a block, one by one.
proof fn lemma_block_leaves_listed()
    ensures
        block_leaf("layer.0.SelfAttention.q.weight"@) == Some("attn_q.weight"@),
        block_leaf("layer.0.SelfAttention.k.weight"@) == Some("attn_k.weight"@),
        block_leaf("layer.0.SelfAttention.v.weight"@) == Some("attn_v.weight"@),
        block_leaf("layer.0.SelfAttention.o.weight"@) == Some("attn_o.weight"@),
        block_leaf("layer.0.SelfAttention.relative_attention_bias.weight"@) == Some("attn_rel_bias.weight"@),
        block_leaf("layer.0.layer_norm.weight"@) == Some("attn_norm.weight"@),
        block_leaf("layer.1.DenseReluDense.wi_0.weight"@) == Some("ffn_wi0.weight"@),
        block_leaf("layer.1.DenseReluDense.wi_1.weight"@) == Some("ffn_wi1.weight"@),
        block_leaf("layer.1.DenseReluDense.wo.weight"@) == Some("ffn_wo.weight"@),
        block_leaf("layer.1.layer_norm.weight"@) == Some("ffn_norm.weight"@),
{
    reveal_strlit("layer.0.SelfAttention.q.weight");
    reveal_strlit("layer.0.SelfAttention.k.weight");
    reveal_strlit("layer.0.SelfAttention.v.weight");
    reveal_strlit("layer.0.SelfAttention.o.weight");
    reveal_strlit("layer.0.SelfAttention.relative_attention_bias.weight");
    reveal_strlit("layer.0.layer_norm.weight");
    reveal_strlit("layer.1.DenseReluDense.wi_0.weight");
    reveal_strlit("layer.1.DenseReluDense.wi_1.weight");
    reveal_strlit("layer.1.DenseReluDense.wo.weight");
    reveal_strlit("layer.1.layer_norm.weight");
    assert("layer.0.SelfAttention.q.weight"@.len() == 30 && "layer.0.SelfAttention.q.weight"@[6] == '0' && "layer.0.SelfAttention.q.weight"@[22] == 'q');
    assert("layer.0.SelfAttention.k.weight"@.len() == 30 && "layer.0.SelfAttention.k.weight"@[6] == '0' && "layer.0.SelfAttention.k.weight"@[22] == 'k');
    assert("layer.0.SelfAttention.v.weight"@.len() == 30 && "layer.0.SelfAttention.v.weight"@[6] == '0' && "layer.0.SelfAttention.v.weight"@[22] == 'v');
    assert("layer.0.SelfAttention.o.weight"@.len() == 30 && "layer.0.SelfAttention.o.weight"@[6] == '0' && "layer.0.SelfAttention.o.weight"@[22] == 'o');
    assert("layer.0.SelfAttention.relative_attention_bias.weight"@.len() == 52 && "layer.0.SelfAttention.relative_attention_bias.weight"@[6] == '0' && "layer.0.SelfAttention.relative_attention_bias.weight"@[44] == 's');
    assert("layer.0.layer_norm.weight"@.len() == 25 && "layer.0.layer_norm.weight"@[6] == '0' && "layer.0.layer_norm.weight"@[17] == 'm');
    assert("layer.1.DenseReluDense.wi_0.weight"@.len() == 34 && "layer.1.DenseReluDense.wi_0.weight"@[6] == '1' && "layer.1.DenseReluDense.wi_0.weight"@[26] == '0');
    assert("layer.1.DenseReluDense.wi_1.weight"@.len() == 34 && "layer.1.DenseReluDense.wi_1.weight"@[6] == '1' && "layer.1.DenseReluDense.wi_1.weight"@[26] == '1');
    assert("layer.1.DenseReluDense.wo.weight"@.len() == 32 && "layer.1.DenseReluDense.wo.weight"@[6] == '1' && "layer.1.DenseReluDense.wo.weight"@[24] == 'o');
    assert("layer.1.layer_norm.weight"@.len() == 25 && "layer.1.layer_norm.weight"@[6] == '1' && "layer.1.layer_norm.weight"@[17] == 'm');
}

/// What the tensors outside the blocks are named.
pub proof fn law_top_level_names()
    ensures
        mapped_name("patch_embedding.value_embedding.weight"@) == Some("patch_embed.weight"@),
        mapped_name("patch_embedding.position_embedding.pe"@) == Some("pos_embed.pe"@),
        mapped_name("patch_embedding.mask_embedding"@) == Some("mask_embed"@),
        mapped_name("encoder.embed_tokens.weight"@) == Some("token_embed.weight"@),
        mapped_name("encoder.final_layer_norm.weight"@) == Some("norm_f.weight"@),
        mapped_name("head.linear.weight"@) == Some("head.weight"@),
        mapped_name("head.linear.bias"@) == Some("head.bias"@),
{
    lemma_top_level_listed();
}

/// What the tensors of every block are named.
pub proof fn law_block_names(n: nat)
    requires
        n <= u32::MAX,
    ensures
        mapped_name("encoder.block."@ + (text::decimal(n) + "."@ + "layer.0.SelfAttention.q.weight"@)) == Some(
            "blk."@ + text::decimal(n) + "."@ + "attn_q.weight"@,
        ),
        mapped_name("encoder.block."@ + (text::decimal(n) + "."@ + "layer.0.SelfAttention.k.weight"@)) == Some(
            "blk."@ + text::decimal(n) + "."@ + "attn_k.weight"@,
        ),
        mapped_name("encoder.block."@ + (text::decimal(n) + "."@ + "layer.0.SelfAttention.v.weight"@)) == Some(
            "blk."@ + text::decimal(n) + "."@ + "attn_v.weight"@,
        ),
        mapped_name("encoder.block."@ + (text::decimal(n) + "."@ + "layer.0.SelfAttention.o.weight"@)) == Some(
            "blk."@ + text::decimal(n) + "."@ + "attn_o.weight"@,
        ),
        mapped_name("encoder.block."@ + (text::decimal(n) + "."@ + "layer.0.SelfAttention.relative_attention_bias.weight"@)) == Some(
            "blk."@ + text::decimal(n) + "."@ + "attn_rel_bias.weight"@,
        ),
        mapped_name("encoder.block."@ + (text::decimal(n) + "."@ + "layer.0.layer_norm.weight"@)) == Some(
            "blk."@ + text::decimal(n) + "."@ + "attn_norm.weight"@,
        ),
        mapped_name("encoder.block."@ + (text::decimal(n) + "."@ + "layer.1.DenseReluDense.wi_0.weight"@)) == Some(
            "blk."@ + text::decimal(n) + "."@ + "ffn_wi0.weight"@,
        ),
        mapped_name("encoder.block."@ + (text::decimal(n) + "."@ + "layer.1.DenseReluDense.wi_1.weight"@)) == Some(
            "blk."@ + text::decimal(n) + "."@ + "ffn_wi1.weight"@,
        ),
        mapped_name("encoder.block."@ + (text::decimal(n) + "."@ + "layer.1.DenseReluDense.wo.weight"@)) == Some(
            "blk."@ + text::decimal(n) + "."@ + "ffn_wo.weight"@,
        ),
        mapped_name("encoder.block."@ + (text::decimal(n) + "."@ + "layer.1.layer_norm.weight"@)) == Some(
            "blk."@ + text::decimal(n) + "."@ + "ffn_norm.weight"@,
        ),
{
    lemma_block_leaves_listed();
    law_blocks_keep_numbers(n, "layer.0.SelfAttention.q.weight"@);
    law_blocks_keep_numbers(n, "layer.0.SelfAttention.k.weight"@);
    law_blocks_keep_numbers(n, "layer.0.SelfAttention.v.weight"@);
    law_blocks_keep_numbers(n, "layer.0.SelfAttention.o.weight"@);
    law_blocks_keep_numbers(n, "layer.0.SelfAttention.relative_attention_bias.weight"@);
    law_blocks_keep_numbers(n, "layer.0.layer_norm.weight"@);
    law_blocks_keep_numbers(n, "layer.1.DenseReluDense.wi_0.weight"@);
    law_blocks_keep_numbers(n, "layer.1.DenseReluDense.wi_1.weight"@);
    law_blocks_keep_numbers(n, "layer.1.DenseReluDense.wo.weight"@);
    law_blocks_keep_numbers(n, "layer.1.layer_norm.weight"@);
}

/// No other tensor has a name: it stands outside the blocks, or it is one of those of a block.
pub proof fn law_nothing_else_is_named(name: Seq<char>)
    requires
        mapped_name(name) is Some,
    ensures
        ({
            ||| name == "patch_embedding.value_embedding.weight"@
            ||| name == "patch_embedding.position_embedding.pe"@
            ||| name == "patch_embedding.mask_embedding"@
            ||| name == "encoder.embed_tokens.weight"@
            ||| name == "encoder.final_layer_norm.weight"@
            ||| name == "head.linear.weight"@
            ||| name == "head.linear.bias"@
            ||| text::has_prefix(name, "encoder.block."@) && ({
                ||| text::has_suffix(name, "layer.0.SelfAttention.q.weight"@)
                ||| text::has_suffix(name, "layer.0.SelfAttention.k.weight"@)
                ||| text::has_suffix(name, "layer.0.SelfAttention.v.weight"@)
                ||| text::has_suffix(name, "layer.0.SelfAttention.o.weight"@)
                ||| text::has_suffix(name, "layer.0.SelfAttention.relative_attention_bias.weight"@)
                ||| text::has_suffix(name, "layer.0.layer_norm.weight"@)
                ||| text::has_suffix(name, "layer.1.DenseReluDense.wi_0.weight"@)
                ||| text::has_suffix(name, "layer.1.DenseReluDense.wi_1.weight"@)
                ||| text::has_suffix(name, "layer.1.DenseReluDense.wo.weight"@)
                ||| text::has_suffix(name, "layer.1.layer_norm.weight"@)
            })
        }),
{
    if top_level(name) is None {
        let rest = text::without_prefix(name, "encoder.block."@);
        let (_n, leaf) = names::numbered(rest, u32::MAX as nat)->0;
        names::lemma_numbered_ends(name, "encoder.block."@, u32::MAX as nat);
        assert(block_leaf(leaf) is Some);
    }
}

} // verus!
