//! Moirai: names of the checkpoint's tensors in a GGUF file.

use vstd::prelude::*;

use crate::models::names;
use crate::text;

verus! {

/// Tensors that stand outside the blocks.
pub open spec fn top_level(name: Seq<char>) -> Option<Seq<char>> {
    if name == "in_proj.weight"@ {
        Some("in_proj.weight"@)
    } else if name == "in_proj.bias"@ {
        Some("in_proj.bias"@)
    } else if name == "mask_encoding.weight"@ {
        Some("mask_embed.weight"@)
    } else if name == "encoder.norm.weight"@ {
        Some("norm_f.weight"@)
    } else if name == "param_proj.proj.components.0.loc.weight"@ {
        Some("head.st_loc.weight"@)
    } else if name == "param_proj.proj.components.0.loc.bias"@ {
        Some("head.st_loc.bias"@)
    } else if name == "param_proj.proj.components.0.scale.weight"@ {
        Some("head.st_scale.weight"@)
    } else if name == "param_proj.proj.components.0.scale.bias"@ {
        Some("head.st_scale.bias"@)
    } else if name == "param_proj.proj.components.0.df.weight"@ {
        Some("head.st_df.weight"@)
    } else if name == "param_proj.proj.components.0.df.bias"@ {
        Some("head.st_df.bias"@)
    } else if name == "param_proj.proj.weights_logits.weight"@ {
        Some("head.mix_w.weight"@)
    } else if name == "param_proj.proj.weights_logits.bias"@ {
        Some("head.mix_w.bias"@)
    } else {
        None
    }
}

/// Tensors of one block.
pub open spec fn block_leaf(leaf: Seq<char>) -> Option<Seq<char>> {
    if leaf == "norm1.weight"@ {
        Some("norm1.weight"@)
    } else if leaf == "norm2.weight"@ {
        Some("norm2.weight"@)
    } else if leaf == "self_attn.q_proj.weight"@ {
        Some("attn_q.weight"@)
    } else if leaf == "self_attn.k_proj.weight"@ {
        Some("attn_k.weight"@)
    } else if leaf == "self_attn.v_proj.weight"@ {
        Some("attn_v.weight"@)
    } else if leaf == "self_attn.out_proj.weight"@ {
        Some("attn_o.weight"@)
    } else if leaf == "self_attn.q_norm.weight"@ {
        Some("attn_qn.weight"@)
    } else if leaf == "self_attn.k_norm.weight"@ {
        Some("attn_kn.weight"@)
    } else if leaf == "self_attn.var_attn_bias.emb.weight"@ {
        Some("attn_vbias.weight"@)
    } else if leaf == "ffn.fc1.weight"@ {
        Some("ffn_fc1.weight"@)
    } else if leaf == "ffn.fc2.weight"@ {
        Some("ffn_fc2.weight"@)
    } else if leaf == "ffn.fc_gate.weight"@ {
        Some("ffn_gate.weight"@)
    } else {
        None
    }
}

/// Components of the output distribution that are not used.
pub open spec fn unused_component(name: Seq<char>) -> bool {
    text::has_prefix(name, "param_proj.proj.components.1."@) || text::has_prefix(
        name,
        "param_proj.proj.components.2."@,
    ) || text::has_prefix(name, "param_proj.proj.components.3."@)
}

/// The GGUF name of a checkpoint's tensor, if it has one.
pub open spec fn mapped_name(name: Seq<char>) -> Option<Seq<char>> {
    if top_level(name) is Some {
        top_level(name)
    } else if !unused_component(name) && text::has_prefix(name, "encoder.layers."@) {
        match names::numbered(text::without_prefix(name, "encoder.layers."@), u32::MAX as nat) {
            Some((n, leaf)) => names::numbered_name("blk."@, n, block_leaf(leaf)),
            None => None,
        }
    } else {
        None
    }
}

/// Maps a tensor that stands outside the blocks.
fn map_top_level(name: &str) -> (r: Option<&'static str>)
    ensures
        names::held_str(r) == top_level(name@),
{
    if text::same(name, "in_proj.weight") {
        Some("in_proj.weight")
    } else if text::same(name, "in_proj.bias") {
        Some("in_proj.bias")
    } else if text::same(name, "mask_encoding.weight") {
        Some("mask_embed.weight")
    } else if text::same(name, "encoder.norm.weight") {
        Some("norm_f.weight")
    } else if text::same(name, "param_proj.proj.components.0.loc.weight") {
        Some("head.st_loc.weight")
    } else if text::same(name, "param_proj.proj.components.0.loc.bias") {
        Some("head.st_loc.bias")
    } else if text::same(name, "param_proj.proj.components.0.scale.weight") {
        Some("head.st_scale.weight")
    } else if text::same(name, "param_proj.proj.components.0.scale.bias") {
        Some("head.st_scale.bias")
    } else if text::same(name, "param_proj.proj.components.0.df.weight") {
        Some("head.st_df.weight")
    } else if text::same(name, "param_proj.proj.components.0.df.bias") {
        Some("head.st_df.bias")
    } else if text::same(name, "param_proj.proj.weights_logits.weight") {
        Some("head.mix_w.weight")
    } else if text::same(name, "param_proj.proj.weights_logits.bias") {
        Some("head.mix_w.bias")
    } else {
        None
    }
}

/// Maps a tensor of one block.
fn map_block_leaf(leaf: &str) -> (r: Option<&'static str>)
    ensures
        names::held_str(r) == block_leaf(leaf@),
{
    if text::same(leaf, "norm1.weight") {
        Some("norm1.weight")
    } else if text::same(leaf, "norm2.weight") {
        Some("norm2.weight")
    } else if text::same(leaf, "self_attn.q_proj.weight") {
        Some("attn_q.weight")
    } else if text::same(leaf, "self_attn.k_proj.weight") {
        Some("attn_k.weight")
    } else if text::same(leaf, "self_attn.v_proj.weight") {
        Some("attn_v.weight")
    } else if text::same(leaf, "self_attn.out_proj.weight") {
        Some("attn_o.weight")
    } else if text::same(leaf, "self_attn.q_norm.weight") {
        Some("attn_qn.weight")
    } else if text::same(leaf, "self_attn.k_norm.weight") {
        Some("attn_kn.weight")
    } else if text::same(leaf, "self_attn.var_attn_bias.emb.weight") {
        Some("attn_vbias.weight")
    } else if text::same(leaf, "ffn.fc1.weight") {
        Some("ffn_fc1.weight")
    } else if text::same(leaf, "ffn.fc2.weight") {
        Some("ffn_fc2.weight")
    } else if text::same(leaf, "ffn.fc_gate.weight") {
        Some("ffn_gate.weight")
    } else {
        None
    }
}

/// Maps a checkpoint's tensor name to its GGUF name.
pub fn map_tensor_name(name: &str) -> (r: Option<String>)
    ensures
        names::held(r) == mapped_name(name@),
{
    if let Some(mapped) = map_top_level(name) {
        return Some(mapped.to_owned());
    }
    if text::starts_with(name, "param_proj.proj.components.1.") || text::starts_with(
        name,
        "param_proj.proj.components.2.",
    ) || text::starts_with(name, "param_proj.proj.components.3.") {
        return None;
    }
    match text::strip_prefix(name, "encoder.layers.") {
        Some(rest) => match names::split_number(rest, u32::MAX as u64) {
            Some((n, leaf)) => names::join_numbered_leaf("blk.", n, map_block_leaf(leaf)),
            None => None,
        },
        None => None,
    }
}

/// Block numbers are kept: tensor `leaf` of block `n` maps to the mapped leaf of block `n`.
pub proof fn law_blocks_keep_numbers(n: nat, leaf: Seq<char>)
    requires
        n <= u32::MAX,
    ensures
        mapped_name("encoder.layers."@ + (text::decimal(n) + "."@ + leaf)) == names::numbered_name(
            "blk."@,
            n,
            block_leaf(leaf),
        ),
{
    let rest = text::decimal(n) + "."@ + leaf;
    let name = "encoder.layers."@ + rest;
    names::lemma_prefix_removed("encoder.layers."@, rest);
    names::law_numbered_reads_back(n, leaf, u32::MAX as nat);
    reveal_strlit("encoder.layers.");
    assert(name[0] == 'e');
    reveal_strlit("in_proj.weight");
    assert("in_proj.weight"@[0] == 'i');
    reveal_strlit("in_proj.bias");
    assert("in_proj.bias"@[0] == 'i');
    reveal_strlit("mask_encoding.weight");
    assert("mask_encoding.weight"@[0] == 'm');
    reveal_strlit("param_proj.proj.components.0.loc.weight");
    assert("param_proj.proj.components.0.loc.weight"@[0] == 'p');
    reveal_strlit("param_proj.proj.components.0.loc.bias");
    assert("param_proj.proj.components.0.loc.bias"@[0] == 'p');
    reveal_strlit("param_proj.proj.components.0.scale.weight");
    assert("param_proj.proj.components.0.scale.weight"@[0] == 'p');
    reveal_strlit("param_proj.proj.components.0.scale.bias");
    assert("param_proj.proj.components.0.scale.bias"@[0] == 'p');
    reveal_strlit("param_proj.proj.components.0.df.weight");
    assert("param_proj.proj.components.0.df.weight"@[0] == 'p');
    reveal_strlit("param_proj.proj.components.0.df.bias");
    assert("param_proj.proj.components.0.df.bias"@[0] == 'p');
    reveal_strlit("param_proj.proj.weights_logits.weight");
    assert("param_proj.proj.weights_logits.weight"@[0] == 'p');
    reveal_strlit("param_proj.proj.weights_logits.bias");
    assert("param_proj.proj.weights_logits.bias"@[0] == 'p');
    reveal_strlit("param_proj.proj.components.1.");
    assert("param_proj.proj.components.1."@[0] == 'p');
    reveal_strlit("param_proj.proj.components.2.");
    assert("param_proj.proj.components.2."@[0] == 'p');
    reveal_strlit("param_proj.proj.components.3.");
    assert("param_proj.proj.components.3."@[0] == 'p');
    assert(name[8] == 'l');
    reveal_strlit("encoder.norm.weight");
    assert("encoder.norm.weight"@[8] == 'n');
}

/// Different names outside the blocks have different names.
proof fn lemma_top_level_apart(a: Seq<char>, b: Seq<char>)
    requires
        top_level(a) is Some,
        top_level(a) == top_level(b),
    ensures
        a == b,
{
    reveal_strlit("in_proj.weight");
    reveal_strlit("in_proj.bias");
    reveal_strlit("mask_embed.weight");
    reveal_strlit("norm_f.weight");
    reveal_strlit("head.st_loc.weight");
    reveal_strlit("head.st_loc.bias");
    reveal_strlit("head.st_scale.weight");
    reveal_strlit("head.st_scale.bias");
    reveal_strlit("head.st_df.weight");
    reveal_strlit("head.st_df.bias");
    reveal_strlit("head.mix_w.weight");
    reveal_strlit("head.mix_w.bias");
    assert("in_proj.weight"@.len() == 14 && "in_proj.weight"@[8] == 'w');
    assert("in_proj.bias"@.len() == 12 && "in_proj.bias"@[8] == 'b');
    assert("mask_embed.weight"@.len() == 17 && "mask_embed.weight"@[8] == 'e');
    assert("norm_f.weight"@.len() == 13 && "norm_f.weight"@[8] == 'e');
    assert("head.st_loc.weight"@.len() == 18 && "head.st_loc.weight"@[8] == 'l');
    assert("head.st_loc.bias"@.len() == 16 && "head.st_loc.bias"@[8] == 'l');
    assert("head.st_scale.weight"@.len() == 20 && "head.st_scale.weight"@[8] == 's');
    assert("head.st_scale.bias"@.len() == 18 && "head.st_scale.bias"@[8] == 's');
    assert("head.st_df.weight"@.len() == 17 && "head.st_df.weight"@[8] == 'd');
    assert("head.st_df.bias"@.len() == 15 && "head.st_df.bias"@[8] == 'd');
    assert("head.mix_w.weight"@.len() == 17 && "head.mix_w.weight"@[8] == '_');
    assert("head.mix_w.bias"@.len() == 15 && "head.mix_w.bias"@[8] == '_');
    let g = top_level(a)->0;
    assert(g[8] == top_level(b)->0[8]);
}

/// Different leaves of a block have different names.
proof fn lemma_block_leaf_apart(a: Seq<char>, b: Seq<char>)
    requires
        block_leaf(a) is Some,
        block_leaf(a) == block_leaf(b),
    ensures
        a == b,
{
    reveal_strlit("norm1.weight");
    reveal_strlit("norm2.weight");
    reveal_strlit("attn_q.weight");
    reveal_strlit("attn_k.weight");
    reveal_strlit("attn_v.weight");
    reveal_strlit("attn_o.weight");
    reveal_strlit("attn_qn.weight");
    reveal_strlit("attn_kn.weight");
    reveal_strlit("attn_vbias.weight");
    reveal_strlit("ffn_fc1.weight");
    reveal_strlit("ffn_fc2.weight");
    reveal_strlit("ffn_gate.weight");
    assert("norm1.weight"@.len() == 12 && "norm1.weight"@[5] == '.' && "norm1.weight"@[4] == '1');
    assert("norm2.weight"@.len() == 12 && "norm2.weight"@[5] == '.' && "norm2.weight"@[4] == '2');
    assert("attn_q.weight"@.len() == 13 && "attn_q.weight"@[5] == 'q' && "attn_q.weight"@[5] == 'q');
    assert("attn_k.weight"@.len() == 13 && "attn_k.weight"@[5] == 'k' && "attn_k.weight"@[5] == 'k');
    assert("attn_v.weight"@.len() == 13 && "attn_v.weight"@[5] == 'v' && "attn_v.weight"@[5] == 'v');
    assert("attn_o.weight"@.len() == 13 && "attn_o.weight"@[5] == 'o' && "attn_o.weight"@[5] == 'o');
    assert("attn_qn.weight"@.len() == 14 && "attn_qn.weight"@[5] == 'q' && "attn_qn.weight"@[6] == 'n');
    assert("attn_kn.weight"@.len() == 14 && "attn_kn.weight"@[5] == 'k' && "attn_kn.weight"@[6] == 'n');
    assert("attn_vbias.weight"@.len() == 17 && "attn_vbias.weight"@[5] == 'v' && "attn_vbias.weight"@[9] == 's');
    assert("ffn_fc1.weight"@.len() == 14 && "ffn_fc1.weight"@[5] == 'c' && "ffn_fc1.weight"@[6] == '1');
    assert("ffn_fc2.weight"@.len() == 14 && "ffn_fc2.weight"@[5] == 'c' && "ffn_fc2.weight"@[6] == '2');
    assert("ffn_gate.weight"@.len() == 15 && "ffn_gate.weight"@[5] == 'a' && "ffn_gate.weight"@[7] == 'e');
    let g = block_leaf(a)->0;
    assert(g[5] == block_leaf(b)->0[5] && g[g.len() - 8] == block_leaf(b)->0[g.len() - 8]);
}

/// No name outside the blocks starts as a block's does.
proof fn lemma_top_level_starts(a: Seq<char>)
    requires
        top_level(a) is Some,
    ensures
        top_level(a)->0.len() > 0,
        top_level(a)->0[0] != 'b',
{
    reveal_strlit("in_proj.weight");
    reveal_strlit("in_proj.bias");
    reveal_strlit("mask_embed.weight");
    reveal_strlit("norm_f.weight");
    reveal_strlit("head.st_loc.weight");
    reveal_strlit("head.st_loc.bias");
    reveal_strlit("head.st_scale.weight");
    reveal_strlit("head.st_scale.bias");
    reveal_strlit("head.st_df.weight");
    reveal_strlit("head.st_df.bias");
    reveal_strlit("head.mix_w.weight");
    reveal_strlit("head.mix_w.bias");
}

/// Different tensors keep different names, where the blocks' numbers are written as their decimals.
pub proof fn law_names_kept_apart(a: Seq<char>, b: Seq<char>)
    requires
        names::canonical(a, u32::MAX as nat),
        names::canonical(b, u32::MAX as nat),
        mapped_name(a) is Some,
        mapped_name(b) is Some,
        a != b,
    ensures
        mapped_name(a) != mapped_name(b),
{
    reveal_strlit("blk.");
    reveal_strlit("encoder.layers.");
    if mapped_name(a) == mapped_name(b) {
        if top_level(a) is Some {
            lemma_top_level_starts(a);
            if top_level(b) is Some {
                lemma_top_level_apart(a, b);
            }
        } else if top_level(b) is Some {
            lemma_top_level_starts(b);
        } else {
            let (_n, la) = names::numbered(text::without_prefix(a, "encoder.layers."@), u32::MAX as nat)->0;
            let (_m, lb) = names::numbered(text::without_prefix(b, "encoder.layers."@), u32::MAX as nat)->0;
            if block_leaf(la) == block_leaf(lb) {
                lemma_block_leaf_apart(la, lb);
            }
            names::lemma_numbered_same(
                a,
                b,
                "encoder.layers."@,
                u32::MAX as nat,
                "blk."@,
                block_leaf(la)->0,
                block_leaf(lb)->0,
            );
        }
    }
}

/// The tensors outside the blocks, one by one.
proof fn lemma_top_level_listed()
    ensures
        top_level("in_proj.weight"@) == Some("in_proj.weight"@),
        top_level("in_proj.bias"@) == Some("in_proj.bias"@),
        top_level("mask_encoding.weight"@) == Some("mask_embed.weight"@),
        top_level("encoder.norm.weight"@) == Some("norm_f.weight"@),
        top_level("param_proj.proj.components.0.loc.weight"@) == Some("head.st_loc.weight"@),
        top_level("param_proj.proj.components.0.loc.bias"@) == Some("head.st_loc.bias"@),
        top_level("param_proj.proj.components.0.scale.weight"@) == Some("head.st_scale.weight"@),
        top_level("param_proj.proj.components.0.scale.bias"@) == Some("head.st_scale.bias"@),
        top_level("param_proj.proj.components.0.df.weight"@) == Some("head.st_df.weight"@),
        top_level("param_proj.proj.components.0.df.bias"@) == Some("head.st_df.bias"@),
        top_level("param_proj.proj.weights_logits.weight"@) == Some("head.mix_w.weight"@),
        top_level("param_proj.proj.weights_logits.bias"@) == Some("head.mix_w.bias"@),
{
    reveal_strlit("in_proj.weight");
    reveal_strlit("in_proj.bias");
    reveal_strlit("mask_encoding.weight");
    reveal_strlit("encoder.norm.weight");
    reveal_strlit("param_proj.proj.components.0.loc.weight");
    reveal_strlit("param_proj.proj.components.0.loc.bias");
    reveal_strlit("param_proj.proj.components.0.scale.weight");
    reveal_strlit("param_proj.proj.components.0.scale.bias");
    reveal_strlit("param_proj.proj.components.0.df.weight");
    reveal_strlit("param_proj.proj.components.0.df.bias");
    reveal_strlit("param_proj.proj.weights_logits.weight");
    reveal_strlit("param_proj.proj.weights_logits.bias");
    assert("in_proj.weight"@.len() == 14 && "in_proj.weight"@[13] == 't');
    assert("in_proj.bias"@.len() == 12 && "in_proj.bias"@[11] == 's');
    assert("mask_encoding.weight"@.len() == 20 && "mask_encoding.weight"@[19] == 't');
    assert("encoder.norm.weight"@.len() == 19 && "encoder.norm.weight"@[18] == 't');
    assert("param_proj.proj.components.0.loc.weight"@.len() == 39 && "param_proj.proj.components.0.loc.weight"@[38] == 't');
    assert("param_proj.proj.components.0.loc.bias"@.len() == 37 && "param_proj.proj.components.0.loc.bias"@[36] == 's');
    assert("param_proj.proj.components.0.scale.weight"@.len() == 41 && "param_proj.proj.components.0.scale.weight"@[40] == 't');
    assert("param_proj.proj.components.0.scale.bias"@.len() == 39 && "param_proj.proj.components.0.scale.bias"@[38] == 's');
    assert("param_proj.proj.components.0.df.weight"@.len() == 38 && "param_proj.proj.components.0.df.weight"@[37] == 't');
    assert("param_proj.proj.components.0.df.bias"@.len() == 36 && "param_proj.proj.components.0.df.bias"@[35] == 's');
    assert("param_proj.proj.weights_logits.weight"@.len() == 37 && "param_proj.proj.weights_logits.weight"@[36] == 't');
    assert("param_proj.proj.weights_logits.bias"@.len() == 35 && "param_proj.proj.weights_logits.bias"@[34] == 's');
}

/// The tensors of a block, one by one.
proof fn lemma_block_leaves_listed()
    ensures
        block_leaf("norm1.weight"@) == Some("norm1.weight"@),
        block_leaf("norm2.weight"@) == Some("norm2.weight"@),
        block_leaf("self_attn.q_proj.weight"@) == Some("attn_q.weight"@),
        block_leaf("self_attn.k_proj.weight"@) == Some("attn_k.weight"@),
        block_leaf("self_attn.v_proj.weight"@) == Some("attn_v.weight"@),
        block_leaf("self_attn.out_proj.weight"@) == Some("attn_o.weight"@),
        block_leaf("self_attn.q_norm.weight"@) == Some("attn_qn.weight"@),
        block_leaf("self_attn.k_norm.weight"@) == Some("attn_kn.weight"@),
        block_leaf("self_attn.var_attn_bias.emb.weight"@) == Some("attn_vbias.weight"@),
        block_leaf("ffn.fc1.weight"@) == Some("ffn_fc1.weight"@),
        block_leaf("ffn.fc2.weight"@) == Some("ffn_fc2.weight"@),
        block_leaf("ffn.fc_gate.weight"@) == Some("ffn_gate.weight"@),
{
    reveal_strlit("norm1.weight");
    reveal_strlit("norm2.weight");
    reveal_strlit("self_attn.q_proj.weight");
    reveal_strlit("self_attn.k_proj.weight");
    reveal_strlit("self_attn.v_proj.weight");
    reveal_strlit("self_attn.out_proj.weight");
    reveal_strlit("self_attn.q_norm.weight");
    reveal_strlit("self_attn.k_norm.weight");
    reveal_strlit("self_attn.var_attn_bias.emb.weight");
    reveal_strlit("ffn.fc1.weight");
    reveal_strlit("ffn.fc2.weight");
    reveal_strlit("ffn.fc_gate.weight");
    assert("norm1.weight"@.len() == 12 && "norm1.weight"@[4] == '1' && "norm1.weight"@[10] == 'h');
    assert("norm2.weight"@.len() == 12 && "norm2.weight"@[4] == '2' && "norm2.weight"@[10] == 'h');
    assert("self_attn.q_proj.weight"@.len() == 23 && "self_attn.q_proj.weight"@[10] == 'q' && "self_attn.q_proj.weight"@[15] == 'j');
    assert("self_attn.k_proj.weight"@.len() == 23 && "self_attn.k_proj.weight"@[10] == 'k' && "self_attn.k_proj.weight"@[15] == 'j');
    assert("self_attn.v_proj.weight"@.len() == 23 && "self_attn.v_proj.weight"@[10] == 'v' && "self_attn.v_proj.weight"@[15] == 'j');
    assert("self_attn.out_proj.weight"@.len() == 25 && "self_attn.out_proj.weight"@[10] == 'o' && "self_attn.out_proj.weight"@[17] == 'j');
    assert("self_attn.q_norm.weight"@.len() == 23 && "self_attn.q_norm.weight"@[10] == 'q' && "self_attn.q_norm.weight"@[15] == 'm');
    assert("self_attn.k_norm.weight"@.len() == 23 && "self_attn.k_norm.weight"@[10] == 'k' && "self_attn.k_norm.weight"@[15] == 'm');
    assert("self_attn.var_attn_bias.emb.weight"@.len() == 34 && "self_attn.var_attn_bias.emb.weight"@[10] == 'v' && "self_attn.var_attn_bias.emb.weight"@[26] == 'b');
    assert("ffn.fc1.weight"@.len() == 14 && "ffn.fc1.weight"@[6] == '1' && "ffn.fc1.weight"@[10] == 'i');
    assert("ffn.fc2.weight"@.len() == 14 && "ffn.fc2.weight"@[6] == '2' && "ffn.fc2.weight"@[10] == 'i');
    assert("ffn.fc_gate.weight"@.len() == 18 && "ffn.fc_gate.weight"@[10] == 'e');
}

/// What the tensors outside the blocks are named.
pub proof fn law_top_level_names()
    ensures
        mapped_name("in_proj.weight"@) == Some("in_proj.weight"@),
        mapped_name("in_proj.bias"@) == Some("in_proj.bias"@),
        mapped_name("mask_encoding.weight"@) == Some("mask_embed.weight"@),
        mapped_name("encoder.norm.weight"@) == Some("norm_f.weight"@),
        mapped_name("param_proj.proj.components.0.loc.weight"@) == Some("head.st_loc.weight"@),
        mapped_name("param_proj.proj.components.0.loc.bias"@) == Some("head.st_loc.bias"@),
        mapped_name("param_proj.proj.components.0.scale.weight"@) == Some("head.st_scale.weight"@),
        mapped_name("param_proj.proj.components.0.scale.bias"@) == Some("head.st_scale.bias"@),
        mapped_name("param_proj.proj.components.0.df.weight"@) == Some("head.st_df.weight"@),
        mapped_name("param_proj.proj.components.0.df.bias"@) == Some("head.st_df.bias"@),
        mapped_name("param_proj.proj.weights_logits.weight"@) == Some("head.mix_w.weight"@),
        mapped_name("param_proj.proj.weights_logits.bias"@) == Some("head.mix_w.bias"@),
{
    lemma_top_level_listed();
}

/// What the tensors of every block are named.
pub proof fn law_block_names(n: nat)
    requires
        n <= u32::MAX,
    ensures
        mapped_name("encoder.layers."@ + (text::decimal(n) + "."@ + "norm1.weight"@)) == Some(
            "blk."@ + text::decimal(n) + "."@ + "norm1.weight"@,
        ),
        mapped_name("encoder.layers."@ + (text::decimal(n) + "."@ + "norm2.weight"@)) == Some(
            "blk."@ + text::decimal(n) + "."@ + "norm2.weight"@,
        ),
        mapped_name("encoder.layers."@ + (text::decimal(n) + "."@ + "self_attn.q_proj.weight"@)) == Some(
            "blk."@ + text::decimal(n) + "."@ + "attn_q.weight"@,
        ),
        mapped_name("encoder.layers."@ + (text::decimal(n) + "."@ + "self_attn.k_proj.weight"@)) == Some(
            "blk."@ + text::decimal(n) + "."@ + "attn_k.weight"@,
        ),
        mapped_name("encoder.layers."@ + (text::decimal(n) + "."@ + "self_attn.v_proj.weight"@)) == Some(
            "blk."@ + text::decimal(n) + "."@ + "attn_v.weight"@,
        ),
        mapped_name("encoder.layers."@ + (text::decimal(n) + "."@ + "self_attn.out_proj.weight"@)) == Some(
            "blk."@ + text::decimal(n) + "."@ + "attn_o.weight"@,
        ),
        mapped_name("encoder.layers."@ + (text::decimal(n) + "."@ + "self_attn.q_norm.weight"@)) == Some(
            "blk."@ + text::decimal(n) + "."@ + "attn_qn.weight"@,
        ),
        mapped_name("encoder.layers."@ + (text::decimal(n) + "."@ + "self_attn.k_norm.weight"@)) == Some(
            "blk."@ + text::decimal(n) + "."@ + "attn_kn.weight"@,
        ),
        mapped_name("encoder.layers."@ + (text::decimal(n) + "."@ + "self_attn.var_attn_bias.emb.weight"@)) == Some(
            "blk."@ + text::decimal(n) + "."@ + "attn_vbias.weight"@,
        ),
        mapped_name("encoder.layers."@ + (text::decimal(n) + "."@ + "ffn.fc1.weight"@)) == Some(
            "blk."@ + text::decimal(n) + "."@ + "ffn_fc1.weight"@,
        ),
        mapped_name("encoder.layers."@ + (text::decimal(n) + "."@ + "ffn.fc2.weight"@)) == Some(
            "blk."@ + text::decimal(n) + "."@ + "ffn_fc2.weight"@,
        ),
        mapped_name("encoder.layers."@ + (text::decimal(n) + "."@ + "ffn.fc_gate.weight"@)) == Some(
            "blk."@ + text::decimal(n) + "."@ + "ffn_gate.weight"@,
        ),
{
    lemma_block_leaves_listed();
    law_blocks_keep_numbers(n, "norm1.weight"@);
    law_blocks_keep_numbers(n, "norm2.weight"@);
    law_blocks_keep_numbers(n, "self_attn.q_proj.weight"@);
    law_blocks_keep_numbers(n, "self_attn.k_proj.weight"@);
    law_blocks_keep_numbers(n, "self_attn.v_proj.weight"@);
    law_blocks_keep_numbers(n, "self_attn.out_proj.weight"@);
    law_blocks_keep_numbers(n, "self_attn.q_norm.weight"@);
    law_blocks_keep_numbers(n, "self_attn.k_norm.weight"@);
    law_blocks_keep_numbers(n, "self_attn.var_attn_bias.emb.weight"@);
    law_blocks_keep_numbers(n, "ffn.fc1.weight"@);
    law_blocks_keep_numbers(n, "ffn.fc2.weight"@);
    law_blocks_keep_numbers(n, "ffn.fc_gate.weight"@);
}

/// No other tensor has a name: it stands outside the blocks, or it is one of those of a block.
pub proof fn law_nothing_else_is_named(name: Seq<char>)
    requires
        mapped_name(name) is Some,
    ensures
        ({
            ||| name == "in_proj.weight"@
            ||| name == "in_proj.bias"@
            ||| name == "mask_encoding.weight"@
            ||| name == "encoder.norm.weight"@
            ||| name == "param_proj.proj.components.0.loc.weight"@
            ||| name == "param_proj.proj.components.0.loc.bias"@
            ||| name == "param_proj.proj.components.0.scale.weight"@
            ||| name == "param_proj.proj.components.0.scale.bias"@
            ||| name == "param_proj.proj.components.0.df.weight"@
            ||| name == "param_proj.proj.components.0.df.bias"@
            ||| name == "param_proj.proj.weights_logits.weight"@
            ||| name == "param_proj.proj.weights_logits.bias"@
            ||| text::has_prefix(name, "encoder.layers."@) && ({
                ||| text::has_suffix(name, "norm1.weight"@)
                ||| text::has_suffix(name, "norm2.weight"@)
                ||| text::has_suffix(name, "self_attn.q_proj.weight"@)
                ||| text::has_suffix(name, "self_attn.k_proj.weight"@)
                ||| text::has_suffix(name, "self_attn.v_proj.weight"@)
                ||| text::has_suffix(name, "self_attn.out_proj.weight"@)
                ||| text::has_suffix(name, "self_attn.q_norm.weight"@)
                ||| text::has_suffix(name, "self_attn.k_norm.weight"@)
                ||| text::has_suffix(name, "self_attn.var_attn_bias.emb.weight"@)
                ||| text::has_suffix(name, "ffn.fc1.weight"@)
                ||| text::has_suffix(name, "ffn.fc2.weight"@)
                ||| text::has_suffix(name, "ffn.fc_gate.weight"@)
            })
        }),
{
    if top_level(name) is None {
        let rest = text::without_prefix(name, "encoder.layers."@);
        let (_n, leaf) = names::numbered(rest, u32::MAX as nat)->0;
        names::lemma_numbered_ends(name, "encoder.layers."@, u32::MAX as nat);
        assert(block_leaf(leaf) is Some);
    }
}

/// Of four components only the first is used.
pub proof fn law_unused_components(rest: Seq<char>)
    ensures
        unused_component("param_proj.proj.components.1."@ + rest),
        unused_component("param_proj.proj.components.2."@ + rest),
        unused_component("param_proj.proj.components.3."@ + rest),
        !unused_component("param_proj.proj.components.0."@ + rest),
{
    text::law_prefixes_and_suffixes("param_proj.proj.components.1."@, rest);
    text::law_prefixes_and_suffixes("param_proj.proj.components.2."@, rest);
    text::law_prefixes_and_suffixes("param_proj.proj.components.3."@, rest);
    reveal_strlit("param_proj.proj.components.0.");
    reveal_strlit("param_proj.proj.components.1.");
    reveal_strlit("param_proj.proj.components.2.");
    reveal_strlit("param_proj.proj.components.3.");
    let s = "param_proj.proj.components.0."@ + rest;
    assert(s[27] == '0');
    assert("param_proj.proj.components.1."@[27] == '1');
    assert("param_proj.proj.components.2."@[27] == '2');
    assert("param_proj.proj.components.3."@[27] == '3');
}

} // verus!
