//! TabFM: names of the checkpoint's tensors in a GGUF file.
//!
//! Each weight-sharing part of the network has a prefix: `cell` for the cell embedding,
//! `colenc1` and `colenc2` for the column stacks, `rowenc1` and `rowenc2` for the row stacks,
//! `icl` for in-context learning. A column block nests two attention blocks, `mab1` and `mab2`;
//! a row or in-context-learning block has one, not nested.

use vstd::prelude::*;

use crate::models::names;
use crate::text;

verus! {

/// The architecture of TabFM.
#[derive(Clone, Copy, Debug)]
pub struct TabFMConfig {
    pub embed_dim: u32,
    pub max_classes: u32,
    pub col_num_blocks: u32,
    pub col_nhead: u32,
    pub col_num_inds: u32,
    pub row_num_blocks: u32,
    pub row_nhead: u32,
    pub row_num_cls: u32,
    pub icl_num_blocks: u32,
    pub icl_nhead: u32,
    pub ff_factor: u32,
    pub feature_group_size: u32,
    pub is_classifier: bool,
    pub num_freq: u32,
    /// Width of the decoder, where it is not twice the row's representation.
    pub decoder_hidden: Option<u32>,
    /// Held as the bits of a 64-bit floating-point number.
    pub norm_eps: u64,
}

impl TabFMConfig {
    /// Width of a row's representation: its class tokens, side by side.
    pub fn icl_dim(&self) -> (r: u32)
        requires
            self.embed_dim * self.row_num_cls <= u32::MAX,
        ensures
            r == self.embed_dim * self.row_num_cls,
    {
        self.embed_dim * self.row_num_cls
    }

    /// Width of the feed-forward layers of the column and row stacks.
    pub fn col_dim_ff(&self) -> (r: u32)
        requires
            self.embed_dim * self.ff_factor <= u32::MAX,
        ensures
            r == self.embed_dim * self.ff_factor,
    {
        self.embed_dim * self.ff_factor
    }

    /// Width of the feed-forward layers of the in-context-learning part.
    pub fn icl_dim_ff(&self) -> (r: u32)
        requires
            self.embed_dim * self.row_num_cls <= u32::MAX,
            self.embed_dim * self.row_num_cls * self.ff_factor <= u32::MAX,
        ensures
            r == self.embed_dim * self.row_num_cls * self.ff_factor,
    {
        self.icl_dim() * self.ff_factor
    }

    /// Width of the decoder: as configured, or else twice the row's representation.
    pub fn decoder_hidden(&self) -> (r: u32)
        requires
            self.embed_dim * self.row_num_cls * 2 <= u32::MAX,
        ensures
            r == match self.decoder_hidden {
                Some(h) => h as int,
                None => self.embed_dim * self.row_num_cls * 2,
            },
    {
        let twice: u32 = self.icl_dim() * 2;
        match self.decoder_hidden {
            Some(h) => h,
            None => twice,
        }
    }
}

/// The number of frequencies where none is configured.
pub fn default_num_freq() -> (r: u32)
    ensures
        r == 32,
{
    32
}

/// Plain tensors of the cell embedding.
pub open spec fn cell_leaf(rest: Seq<char>) -> Option<Seq<char>> {
    if rest == "fourier_frequencies"@ {
        Some("cell.fourier_freq"@)
    } else if rest == "fourier_frequencies_cat"@ {
        Some("cell.fourier_freq_cat"@)
    } else if rest == "in_linear.weight"@ {
        Some("cell.in_linear.weight"@)
    } else if rest == "in_linear.bias"@ {
        Some("cell.in_linear.bias"@)
    } else if rest == "in_linear_cat.weight"@ {
        Some("cell.in_linear_cat.weight"@)
    } else if rest == "in_linear_cat.bias"@ {
        Some("cell.in_linear_cat.bias"@)
    } else if rest == "y_embedder_lookup.weight"@ {
        Some("cell.y_embed.weight"@)
    } else {
        None
    }
}

/// Tensors of an attention layer.
pub open spec fn attention_leaf(leaf: Seq<char>) -> Option<Seq<char>> {
    if leaf == "q_proj.weight"@ {
        Some("attn_q.weight"@)
    } else if leaf == "q_proj.bias"@ {
        Some("attn_q.bias"@)
    } else if leaf == "k_proj.weight"@ {
        Some("attn_k.weight"@)
    } else if leaf == "k_proj.bias"@ {
        Some("attn_k.bias"@)
    } else if leaf == "v_proj.weight"@ {
        Some("attn_v.weight"@)
    } else if leaf == "v_proj.bias"@ {
        Some("attn_v.bias"@)
    } else if leaf == "out_proj.weight"@ {
        Some("attn_o.weight"@)
    } else if leaf == "out_proj.bias"@ {
        Some("attn_o.bias"@)
    } else if leaf == "query_ln.weight"@ {
        Some("q_norm.weight"@)
    } else if leaf == "key_ln.weight"@ {
        Some("k_norm.weight"@)
    } else if leaf == "per_dim_scale"@ {
        Some("per_dim_scale"@)
    } else {
        None
    }
}

/// Norms and feed-forward tensors of an attention block.
pub open spec fn feed_forward_leaf(leaf: Seq<char>) -> Option<Seq<char>> {
    if leaf == "pre_attn_ln.weight"@ {
        Some("pre_attn_norm.weight"@)
    } else if leaf == "post_attn_ln.weight"@ {
        Some("post_attn_norm.weight"@)
    } else if leaf == "pre_ff_ln.weight"@ {
        Some("pre_ff_norm.weight"@)
    } else if leaf == "post_ff_ln.weight"@ {
        Some("post_ff_norm.weight"@)
    } else if leaf == "linear1.weight"@ {
        Some("ffn_up.weight"@)
    } else if leaf == "linear1.bias"@ {
        Some("ffn_up.bias"@)
    } else if leaf == "linear1_gate.weight"@ {
        Some("ffn_gate.weight"@)
    } else if leaf == "linear1_gate.bias"@ {
        Some("ffn_gate.bias"@)
    } else if leaf == "linear2.weight"@ {
        Some("ffn_down.weight"@)
    } else if leaf == "linear2.bias"@ {
        Some("ffn_down.bias"@)
    } else {
        None
    }
}

/// What follows the stack in the names of a column stack's own tensors.
pub open spec fn column_leaf(rest: Seq<char>) -> Option<Seq<char>> {
    if rest == "out_w.weight"@ {
        Some(".out_w.weight"@)
    } else if rest == "out_w.bias"@ {
        Some(".out_w.bias"@)
    } else if rest == "ln_w.weight"@ {
        Some(".out_norm.weight"@)
    } else {
        None
    }
}

/// Plain tensors of the in-context-learning part.
pub open spec fn icl_leaf(rest: Seq<char>) -> Option<Seq<char>> {
    if rest == "ln.weight"@ {
        Some("icl.out_norm.weight"@)
    } else if rest == "y_encoder.projection.weight"@ {
        Some("icl.y_encoder.projection.weight"@)
    } else if rest == "y_encoder.projection.bias"@ {
        Some("icl.y_encoder.projection.bias"@)
    } else {
        None
    }
}

/// Tensors of an attention block.
pub open spec fn block_leaf(leaf: Seq<char>) -> Option<Seq<char>> {
    if text::has_prefix(leaf, "attn."@) {
        attention_leaf(text::without_prefix(leaf, "attn."@))
    } else {
        feed_forward_leaf(leaf)
    }
}

/// The name of layer `{idx}.{weight|bias}` of a perceptron.
pub open spec fn mlp_leaf(base: Seq<char>, rest: Seq<char>) -> Option<Seq<char>> {
    match names::numbered(rest, usize::MAX as nat) {
        Some((idx, field)) => if field == "weight"@ || field == "bias"@ {
            Some(names::joined(base + ".mlp."@, idx, field))
        } else {
            None
        },
        None => None,
    }
}

/// The name of what stands in block `{n}` of a stack; `nested` tells a column block.
pub open spec fn block_name(stack: Seq<char>, rest: Seq<char>, nested: bool) -> Option<Seq<char>> {
    match names::numbered(rest, usize::MAX as nat) {
        Some((n, suffix)) => if nested {
            if suffix == "ind_vectors"@ {
                Some(names::joined(stack + ".blk."@, n, "ind_vectors"@))
            } else if text::has_prefix(suffix, "mab1."@) {
                match block_leaf(text::without_prefix(suffix, "mab1."@)) {
                    Some(l) => Some(names::joined(stack + ".blk."@, n, "mab1."@ + l)),
                    None => None,
                }
            } else if text::has_prefix(suffix, "mab2."@) {
                match block_leaf(text::without_prefix(suffix, "mab2."@)) {
                    Some(l) => Some(names::joined(stack + ".blk."@, n, "mab2."@ + l)),
                    None => None,
                }
            } else {
                None
            }
        } else {
            names::numbered_name(stack + ".blk."@, n, block_leaf(suffix))
        },
        None => None,
    }
}

/// The name of a tensor of a column or a row stack.
pub open spec fn stack_name(stack: Seq<char>, rest: Seq<char>, is_col: bool) -> Option<Seq<char>> {
    if is_col {
        if text::has_prefix(rest, "tf_col.blocks."@) {
            block_name(stack, text::without_prefix(rest, "tf_col.blocks."@), true)
        } else {
            match column_leaf(rest) {
                Some(l) => Some(stack + l),
                None => None,
            }
        }
    } else if rest == "tf_row.rope.freqs"@ {
        Some(stack + ".rope_freqs"@)
    } else if text::has_prefix(rest, "tf_row.blocks."@) {
        block_name(stack, text::without_prefix(rest, "tf_row.blocks."@), false)
    } else if rest == "out_ln.weight"@ {
        Some(stack + ".out_norm.weight"@)
    } else {
        None
    }
}

/// The name of a tensor of the cell embedding.
pub open spec fn cell_name(rest: Seq<char>) -> Option<Seq<char>> {
    if cell_leaf(rest) is Some {
        cell_leaf(rest)
    } else if text::has_prefix(rest, "y_embedder_lookup.layers."@) {
        mlp_leaf("cell.y_embed"@, text::without_prefix(rest, "y_embedder_lookup.layers."@))
    } else {
        None
    }
}

/// The name of a tensor of the in-context-learning part.
pub open spec fn icl_name(rest: Seq<char>) -> Option<Seq<char>> {
    if text::has_prefix(rest, "tf_icl.blocks."@) {
        block_name("icl"@, text::without_prefix(rest, "tf_icl.blocks."@), false)
    } else if icl_leaf(rest) is Some {
        icl_leaf(rest)
    } else if text::has_prefix(rest, "y_encoder.layers."@) {
        mlp_leaf("icl.y_encoder"@, text::without_prefix(rest, "y_encoder.layers."@))
    } else if text::has_prefix(rest, "decoder.layers."@) {
        mlp_leaf("icl.decoder"@, text::without_prefix(rest, "decoder.layers."@))
    } else {
        None
    }
}

/// The GGUF name of a checkpoint's tensor, if it has one.
pub open spec fn mapped_name(name: Seq<char>) -> Option<Seq<char>> {
    if name == "cls_tokens"@ {
        Some("cls_tokens"@)
    } else if text::has_prefix(name, "cell_embedder."@) {
        cell_name(text::without_prefix(name, "cell_embedder."@))
    } else if text::has_prefix(name, "col_embedder_2."@) {
        stack_name("colenc2"@, text::without_prefix(name, "col_embedder_2."@), true)
    } else if text::has_prefix(name, "col_embedder."@) {
        stack_name("colenc1"@, text::without_prefix(name, "col_embedder."@), true)
    } else if text::has_prefix(name, "row_interactor_2."@) {
        stack_name("rowenc2"@, text::without_prefix(name, "row_interactor_2."@), false)
    } else if text::has_prefix(name, "row_interactor."@) {
        stack_name("rowenc1"@, text::without_prefix(name, "row_interactor."@), false)
    } else if text::has_prefix(name, "icl_predictor."@) {
        icl_name(text::without_prefix(name, "icl_predictor."@))
    } else {
        None
    }
}

/// Maps a plain tensor of the cell embedding.
fn find_cell_leaf(rest: &str) -> (r: Option<&'static str>)
    ensures
        names::held_str(r) == cell_leaf(rest@),
{
    if text::same(rest, "fourier_frequencies") {
        Some("cell.fourier_freq")
    } else if text::same(rest, "fourier_frequencies_cat") {
        Some("cell.fourier_freq_cat")
    } else if text::same(rest, "in_linear.weight") {
        Some("cell.in_linear.weight")
    } else if text::same(rest, "in_linear.bias") {
        Some("cell.in_linear.bias")
    } else if text::same(rest, "in_linear_cat.weight") {
        Some("cell.in_linear_cat.weight")
    } else if text::same(rest, "in_linear_cat.bias") {
        Some("cell.in_linear_cat.bias")
    } else if text::same(rest, "y_embedder_lookup.weight") {
        Some("cell.y_embed.weight")
    } else {
        None
    }
}

/// Maps a tensor of an attention layer.
fn find_attention_leaf(leaf: &str) -> (r: Option<&'static str>)
    ensures
        names::held_str(r) == attention_leaf(leaf@),
{
    if text::same(leaf, "q_proj.weight") {
        Some("attn_q.weight")
    } else if text::same(leaf, "q_proj.bias") {
        Some("attn_q.bias")
    } else if text::same(leaf, "k_proj.weight") {
        Some("attn_k.weight")
    } else if text::same(leaf, "k_proj.bias") {
        Some("attn_k.bias")
    } else if text::same(leaf, "v_proj.weight") {
        Some("attn_v.weight")
    } else if text::same(leaf, "v_proj.bias") {
        Some("attn_v.bias")
    } else if text::same(leaf, "out_proj.weight") {
        Some("attn_o.weight")
    } else if text::same(leaf, "out_proj.bias") {
        Some("attn_o.bias")
    } else if text::same(leaf, "query_ln.weight") {
        Some("q_norm.weight")
    } else if text::same(leaf, "key_ln.weight") {
        Some("k_norm.weight")
    } else if text::same(leaf, "per_dim_scale") {
        Some("per_dim_scale")
    } else {
        None
    }
}

/// Maps a norm or feed-forward tensor.
fn find_feed_forward_leaf(leaf: &str) -> (r: Option<&'static str>)
    ensures
        names::held_str(r) == feed_forward_leaf(leaf@),
{
    if text::same(leaf, "pre_attn_ln.weight") {
        Some("pre_attn_norm.weight")
    } else if text::same(leaf, "post_attn_ln.weight") {
        Some("post_attn_norm.weight")
    } else if text::same(leaf, "pre_ff_ln.weight") {
        Some("pre_ff_norm.weight")
    } else if text::same(leaf, "post_ff_ln.weight") {
        Some("post_ff_norm.weight")
    } else if text::same(leaf, "linear1.weight") {
        Some("ffn_up.weight")
    } else if text::same(leaf, "linear1.bias") {
        Some("ffn_up.bias")
    } else if text::same(leaf, "linear1_gate.weight") {
        Some("ffn_gate.weight")
    } else if text::same(leaf, "linear1_gate.bias") {
        Some("ffn_gate.bias")
    } else if text::same(leaf, "linear2.weight") {
        Some("ffn_down.weight")
    } else if text::same(leaf, "linear2.bias") {
        Some("ffn_down.bias")
    } else {
        None
    }
}

/// Maps a column stack's own tensor.
fn find_column_leaf(rest: &str) -> (r: Option<&'static str>)
    ensures
        names::held_str(r) == column_leaf(rest@),
{
    if text::same(rest, "out_w.weight") {
        Some(".out_w.weight")
    } else if text::same(rest, "out_w.bias") {
        Some(".out_w.bias")
    } else if text::same(rest, "ln_w.weight") {
        Some(".out_norm.weight")
    } else {
        None
    }
}

/// Maps a plain tensor of the in-context-learning part.
fn find_icl_leaf(rest: &str) -> (r: Option<&'static str>)
    ensures
        names::held_str(r) == icl_leaf(rest@),
{
    if text::same(rest, "ln.weight") {
        Some("icl.out_norm.weight")
    } else if text::same(rest, "y_encoder.projection.weight") {
        Some("icl.y_encoder.projection.weight")
    } else if text::same(rest, "y_encoder.projection.bias") {
        Some("icl.y_encoder.projection.bias")
    } else {
        None
    }
}

/// Maps a tensor of an attention block.
fn map_mab_leaf(leaf: &str) -> (r: Option<&'static str>)
    ensures
        names::held_str(r) == block_leaf(leaf@),
{
    match text::strip_prefix(leaf, "attn.") {
        Some(rest) => find_attention_leaf(rest),
        None => find_feed_forward_leaf(leaf),
    }
}

/// Maps layer `{idx}.{weight|bias}` of a perceptron.
fn map_mlp_leaf(base: &str, rest: &str) -> (r: Option<String>)
    ensures
        names::held(r) == mlp_leaf(base@, rest@),
{
    match names::split_number(rest, usize::MAX as u64) {
        Some((idx, field)) => if text::same(field, "weight") || text::same(field, "bias") {
            let prefix: String = text::join2(base, ".mlp.");
            Some(names::join_numbered(prefix.as_str(), idx, field))
        } else {
            None
        },
        None => None,
    }
}

/// Maps what stands in block `{n}` of a stack; `has_mab` tells a column block.
fn map_block(stack: &str, rest: &str, has_mab: bool) -> (r: Option<String>)
    ensures
        names::held(r) == block_name(stack@, rest@, has_mab),
{
    let (n, suffix) = match names::split_number(rest, usize::MAX as u64) {
        Some(p) => p,
        None => return None,
    };
    let prefix: String = text::join2(stack, ".blk.");
    if !has_mab {
        return names::join_numbered_leaf(prefix.as_str(), n, map_mab_leaf(suffix));
    }
    if text::same(suffix, "ind_vectors") {
        return Some(names::join_numbered(prefix.as_str(), n, "ind_vectors"));
    }
    if let Some(leaf) = text::strip_prefix(suffix, "mab1.") {
        return match map_mab_leaf(leaf) {
            Some(mapped) => {
                let full: String = text::join2("mab1.", mapped);
                Some(names::join_numbered(prefix.as_str(), n, full.as_str()))
            },
            None => None,
        };
    }
    if let Some(leaf) = text::strip_prefix(suffix, "mab2.") {
        return match map_mab_leaf(leaf) {
            Some(mapped) => {
                let full: String = text::join2("mab2.", mapped);
                Some(names::join_numbered(prefix.as_str(), n, full.as_str()))
            },
            None => None,
        };
    }
    None
}

/// Maps a tensor of a column or a row stack.
fn map_stack(stack: &str, rest: &str, is_col: bool) -> (r: Option<String>)
    ensures
        names::held(r) == stack_name(stack@, rest@, is_col),
{
    if is_col {
        if let Some(inner) = text::strip_prefix(rest, "tf_col.blocks.") {
            return map_block(stack, inner, true);
        }
        return match find_column_leaf(rest) {
            Some(leaf) => Some(text::join2(stack, leaf)),
            None => None,
        };
    }
    if text::same(rest, "tf_row.rope.freqs") {
        return Some(text::join2(stack, ".rope_freqs"));
    }
    if let Some(inner) = text::strip_prefix(rest, "tf_row.blocks.") {
        return map_block(stack, inner, false);
    }
    if text::same(rest, "out_ln.weight") {
        return Some(text::join2(stack, ".out_norm.weight"));
    }
    None
}

/// Maps a tensor of the cell embedding.
fn map_cell(rest: &str) -> (r: Option<String>)
    ensures
        names::held(r) == cell_name(rest@),
{
    if let Some(mapped) = find_cell_leaf(rest) {
        return Some(mapped.to_owned());
    }
    match text::strip_prefix(rest, "y_embedder_lookup.layers.") {
        Some(inner) => map_mlp_leaf("cell.y_embed", inner),
        None => None,
    }
}

/// Maps a tensor of the in-context-learning part.
fn map_icl(rest: &str) -> (r: Option<String>)
    ensures
        names::held(r) == icl_name(rest@),
{
    if let Some(inner) = text::strip_prefix(rest, "tf_icl.blocks.") {
        return map_block("icl", inner, false);
    }
    if let Some(mapped) = find_icl_leaf(rest) {
        return Some(mapped.to_owned());
    }
    if let Some(inner) = text::strip_prefix(rest, "y_encoder.layers.") {
        return map_mlp_leaf("icl.y_encoder", inner);
    }
    if let Some(inner) = text::strip_prefix(rest, "decoder.layers.") {
        return map_mlp_leaf("icl.decoder", inner);
    }
    None
}

/// Maps a checkpoint's tensor name to its GGUF name.
pub fn map_tensor_name(hf_name: &str) -> (r: Option<String>)
    ensures
        names::held(r) == mapped_name(hf_name@),
{
    if text::same(hf_name, "cls_tokens") {
        return Some("cls_tokens".to_owned());
    }
    if let Some(rest) = text::strip_prefix(hf_name, "cell_embedder.") {
        return map_cell(rest);
    }
    if let Some(rest) = text::strip_prefix(hf_name, "col_embedder_2.") {
        return map_stack("colenc2", rest, true);
    }
    if let Some(rest) = text::strip_prefix(hf_name, "col_embedder.") {
        return map_stack("colenc1", rest, true);
    }
    if let Some(rest) = text::strip_prefix(hf_name, "row_interactor_2.") {
        return map_stack("rowenc2", rest, false);
    }
    if let Some(rest) = text::strip_prefix(hf_name, "row_interactor.") {
        return map_stack("rowenc1", rest, false);
    }
    if let Some(rest) = text::strip_prefix(hf_name, "icl_predictor.") {
        return map_icl(rest);
    }
    None
}

/// Block numbers are kept in every stack: tensor `leaf` of block `n` maps to the mapped leaf of
/// block `n`.
pub proof fn law_blocks_keep_numbers(stack: Seq<char>, n: nat, leaf: Seq<char>)
    requires
        n <= usize::MAX,
    ensures
        block_name(stack, text::decimal(n) + "."@ + leaf, false) == names::numbered_name(
            stack + ".blk."@,
            n,
            block_leaf(leaf),
        ),
{
    names::law_numbered_reads_back(n, leaf, usize::MAX as nat);
}

/// Different leaves of the cell embedder have different names.
proof fn lemma_cell_leaf_apart(a: Seq<char>, b: Seq<char>)
    requires
        cell_leaf(a) is Some,
        cell_leaf(a) == cell_leaf(b),
    ensures
        a == b,
{
    reveal_strlit("cell.fourier_freq");
    reveal_strlit("cell.fourier_freq_cat");
    reveal_strlit("cell.in_linear.weight");
    reveal_strlit("cell.in_linear.bias");
    reveal_strlit("cell.in_linear_cat.weight");
    reveal_strlit("cell.in_linear_cat.bias");
    reveal_strlit("cell.y_embed.weight");
    assert("cell.fourier_freq"@.len() == 17 && "cell.fourier_freq"@[5] == 'f');
    assert("cell.fourier_freq_cat"@.len() == 21 && "cell.fourier_freq_cat"@[5] == 'f');
    assert("cell.in_linear.weight"@.len() == 21 && "cell.in_linear.weight"@[5] == 'i');
    assert("cell.in_linear.bias"@.len() == 19 && "cell.in_linear.bias"@[5] == 'i');
    assert("cell.in_linear_cat.weight"@.len() == 25 && "cell.in_linear_cat.weight"@[5] == 'i');
    assert("cell.in_linear_cat.bias"@.len() == 23 && "cell.in_linear_cat.bias"@[5] == 'i');
    assert("cell.y_embed.weight"@.len() == 19 && "cell.y_embed.weight"@[5] == 'y');
    let g = cell_leaf(a)->0;
    assert(g[5] == cell_leaf(b)->0[5]);
}

/// Different leaves of the attention have different names.
proof fn lemma_attention_leaf_apart(a: Seq<char>, b: Seq<char>)
    requires
        attention_leaf(a) is Some,
        attention_leaf(a) == attention_leaf(b),
    ensures
        a == b,
{
    reveal_strlit("attn_q.weight");
    reveal_strlit("attn_q.bias");
    reveal_strlit("attn_k.weight");
    reveal_strlit("attn_k.bias");
    reveal_strlit("attn_v.weight");
    reveal_strlit("attn_v.bias");
    reveal_strlit("attn_o.weight");
    reveal_strlit("attn_o.bias");
    reveal_strlit("q_norm.weight");
    reveal_strlit("k_norm.weight");
    reveal_strlit("per_dim_scale");
    assert("attn_q.weight"@.len() == 13 && "attn_q.weight"@[0] == 'a' && "attn_q.weight"@[5] == 'q');
    assert("attn_q.bias"@.len() == 11 && "attn_q.bias"@[0] == 'a' && "attn_q.bias"@[5] == 'q');
    assert("attn_k.weight"@.len() == 13 && "attn_k.weight"@[0] == 'a' && "attn_k.weight"@[5] == 'k');
    assert("attn_k.bias"@.len() == 11 && "attn_k.bias"@[0] == 'a' && "attn_k.bias"@[5] == 'k');
    assert("attn_v.weight"@.len() == 13 && "attn_v.weight"@[0] == 'a' && "attn_v.weight"@[5] == 'v');
    assert("attn_v.bias"@.len() == 11 && "attn_v.bias"@[0] == 'a' && "attn_v.bias"@[5] == 'v');
    assert("attn_o.weight"@.len() == 13 && "attn_o.weight"@[0] == 'a' && "attn_o.weight"@[5] == 'o');
    assert("attn_o.bias"@.len() == 11 && "attn_o.bias"@[0] == 'a' && "attn_o.bias"@[5] == 'o');
    assert("q_norm.weight"@.len() == 13 && "q_norm.weight"@[0] == 'q' && "q_norm.weight"@[5] == 'm');
    assert("k_norm.weight"@.len() == 13 && "k_norm.weight"@[0] == 'k' && "k_norm.weight"@[5] == 'm');
    assert("per_dim_scale"@.len() == 13 && "per_dim_scale"@[0] == 'p' && "per_dim_scale"@[5] == 'i');
    let g = attention_leaf(a)->0;
    assert(g[0] == attention_leaf(b)->0[0] && g[5] == attention_leaf(b)->0[5]);
}

/// Different leaves of the feed-forward part have different names.
proof fn lemma_feed_forward_leaf_apart(a: Seq<char>, b: Seq<char>)
    requires
        feed_forward_leaf(a) is Some,
        feed_forward_leaf(a) == feed_forward_leaf(b),
    ensures
        a == b,
{
    reveal_strlit("pre_attn_norm.weight");
    reveal_strlit("post_attn_norm.weight");
    reveal_strlit("pre_ff_norm.weight");
    reveal_strlit("post_ff_norm.weight");
    reveal_strlit("ffn_up.weight");
    reveal_strlit("ffn_up.bias");
    reveal_strlit("ffn_gate.weight");
    reveal_strlit("ffn_gate.bias");
    reveal_strlit("ffn_down.weight");
    reveal_strlit("ffn_down.bias");
    assert("pre_attn_norm.weight"@.len() == 20 && "pre_attn_norm.weight"@[4] == 'a');
    assert("post_attn_norm.weight"@.len() == 21 && "post_attn_norm.weight"@[4] == '_');
    assert("pre_ff_norm.weight"@.len() == 18 && "pre_ff_norm.weight"@[4] == 'f');
    assert("post_ff_norm.weight"@.len() == 19 && "post_ff_norm.weight"@[4] == '_');
    assert("ffn_up.weight"@.len() == 13 && "ffn_up.weight"@[4] == 'u');
    assert("ffn_up.bias"@.len() == 11 && "ffn_up.bias"@[4] == 'u');
    assert("ffn_gate.weight"@.len() == 15 && "ffn_gate.weight"@[4] == 'g');
    assert("ffn_gate.bias"@.len() == 13 && "ffn_gate.bias"@[4] == 'g');
    assert("ffn_down.weight"@.len() == 15 && "ffn_down.weight"@[4] == 'd');
    assert("ffn_down.bias"@.len() == 13 && "ffn_down.bias"@[4] == 'd');
    let g = feed_forward_leaf(a)->0;
    assert(g[4] == feed_forward_leaf(b)->0[4]);
}

/// Different leaves of the column embedder have different names.
proof fn lemma_column_leaf_apart(a: Seq<char>, b: Seq<char>)
    requires
        column_leaf(a) is Some,
        column_leaf(a) == column_leaf(b),
    ensures
        a == b,
{
    reveal_strlit(".out_w.weight");
    reveal_strlit(".out_w.bias");
    reveal_strlit(".out_norm.weight");
    assert(".out_w.weight"@.len() == 13);
    assert(".out_w.bias"@.len() == 11);
    assert(".out_norm.weight"@.len() == 16);
    let g = column_leaf(a)->0;
}

/// Different leaves of the predictor have different names.
proof fn lemma_icl_leaf_apart(a: Seq<char>, b: Seq<char>)
    requires
        icl_leaf(a) is Some,
        icl_leaf(a) == icl_leaf(b),
    ensures
        a == b,
{
    reveal_strlit("icl.out_norm.weight");
    reveal_strlit("icl.y_encoder.projection.weight");
    reveal_strlit("icl.y_encoder.projection.bias");
    assert("icl.out_norm.weight"@.len() == 19);
    assert("icl.y_encoder.projection.weight"@.len() == 31);
    assert("icl.y_encoder.projection.bias"@.len() == 29);
    let g = icl_leaf(a)->0;
}

/// Different leaves of a block have different names.
proof fn lemma_block_leaf_apart(a: Seq<char>, b: Seq<char>)
    requires
        block_leaf(a) is Some,
        block_leaf(a) == block_leaf(b),
    ensures
        a == b,
{
    let g = block_leaf(a)->0;
    assert(g[1] == block_leaf(b)->0[1]);
    if text::has_prefix(a, "attn."@) {
        lemma_attention_leaf_starts(text::without_prefix(a, "attn."@));
        if text::has_prefix(b, "attn."@) {
            lemma_attention_leaf_apart(text::without_prefix(a, "attn."@), text::without_prefix(b, "attn."@));
            names::lemma_same_rest(a, b, "attn."@);
        } else {
            lemma_feed_forward_leaf_starts(b);
        }
    } else {
        lemma_feed_forward_leaf_starts(a);
        if text::has_prefix(b, "attn."@) {
            lemma_attention_leaf_starts(text::without_prefix(b, "attn."@));
        } else {
            lemma_feed_forward_leaf_apart(a, b);
        }
    }
}

/// How the leaves of the attention start.
proof fn lemma_attention_leaf_starts(a: Seq<char>)
    requires
        attention_leaf(a) is Some,
    ensures
        attention_leaf(a)->0.len() > 1,
        attention_leaf(a)->0[1] == 't' || attention_leaf(a)->0[1] == '_' || attention_leaf(a)->0[1] == 'e',
{
    reveal_strlit("attn_q.weight");
    reveal_strlit("attn_q.bias");
    reveal_strlit("attn_k.weight");
    reveal_strlit("attn_k.bias");
    reveal_strlit("attn_v.weight");
    reveal_strlit("attn_v.bias");
    reveal_strlit("attn_o.weight");
    reveal_strlit("attn_o.bias");
    reveal_strlit("q_norm.weight");
    reveal_strlit("k_norm.weight");
    reveal_strlit("per_dim_scale");
}

/// How the leaves of the feed-forward part start.
proof fn lemma_feed_forward_leaf_starts(a: Seq<char>)
    requires
        feed_forward_leaf(a) is Some,
    ensures
        feed_forward_leaf(a)->0.len() > 1,
        feed_forward_leaf(a)->0[1] == 'r' || feed_forward_leaf(a)->0[1] == 'o' || feed_forward_leaf(a)->0[1] == 'f',
{
    reveal_strlit("pre_attn_norm.weight");
    reveal_strlit("post_attn_norm.weight");
    reveal_strlit("pre_ff_norm.weight");
    reveal_strlit("post_ff_norm.weight");
    reveal_strlit("ffn_up.weight");
    reveal_strlit("ffn_up.bias");
    reveal_strlit("ffn_gate.weight");
    reveal_strlit("ffn_gate.bias");
    reveal_strlit("ffn_down.weight");
    reveal_strlit("ffn_down.bias");
}

/// A text behind a prefix is the same only where the whole is.
proof fn lemma_behind(prefix: Seq<char>, a: Seq<char>, b: Seq<char>)
    requires
        prefix + a == prefix + b,
    ensures
        a == b,
{
    names::lemma_prefix_removed(prefix, a);
    names::lemma_prefix_removed(prefix, b);
}

/// Layers of a multilayer perceptron with one name are the same.
proof fn lemma_mlp_apart(base: Seq<char>, a: Seq<char>, b: Seq<char>)
    requires
        names::plain(a, usize::MAX as nat),
        names::plain(b, usize::MAX as nat),
        mlp_leaf(base, a) is Some,
        mlp_leaf(base, a) == mlp_leaf(base, b),
    ensures
        a == b,
{
    let (n, fa) = names::numbered(a, usize::MAX as nat)->0;
    let (m, fb) = names::numbered(b, usize::MAX as nat)->0;
    names::lemma_joined_same(base + ".mlp."@, n, fa, m, fb);
}

/// What a nested block's suffix is mapped to.
spec fn nested_leaf(suffix: Seq<char>) -> Option<Seq<char>> {
    if suffix == "ind_vectors"@ {
        Some("ind_vectors"@)
    } else if text::has_prefix(suffix, "mab1."@) {
        match block_leaf(text::without_prefix(suffix, "mab1."@)) {
            Some(l) => Some("mab1."@ + l),
            None => None,
        }
    } else if text::has_prefix(suffix, "mab2."@) {
        match block_leaf(text::without_prefix(suffix, "mab2."@)) {
            Some(l) => Some("mab2."@ + l),
            None => None,
        }
    } else {
        None
    }
}

/// Different suffixes of a nested block have different names.
proof fn lemma_nested_leaf_apart(a: Seq<char>, b: Seq<char>)
    requires
        nested_leaf(a) is Some,
        nested_leaf(a) == nested_leaf(b),
    ensures
        a == b,
{
    reveal_strlit("ind_vectors");
    reveal_strlit("mab1.");
    reveal_strlit("mab2.");
    let g = nested_leaf(a)->0;
    assert(g[0] == nested_leaf(b)->0[0] && g[3] == nested_leaf(b)->0[3]);
    if a == "ind_vectors"@ || b == "ind_vectors"@ {
    } else if text::has_prefix(a, "mab1."@) {
        let (sa, sb) = (text::without_prefix(a, "mab1."@), text::without_prefix(b, "mab1."@));
        lemma_behind("mab1."@, block_leaf(sa)->0, block_leaf(sb)->0);
        lemma_block_leaf_apart(sa, sb);
        names::lemma_same_rest(a, b, "mab1."@);
    } else {
        let (sa, sb) = (text::without_prefix(a, "mab2."@), text::without_prefix(b, "mab2."@));
        lemma_behind("mab2."@, block_leaf(sa)->0, block_leaf(sb)->0);
        lemma_block_leaf_apart(sa, sb);
        names::lemma_same_rest(a, b, "mab2."@);
    }
}

/// Blocks of one stack with one name are the same.
proof fn lemma_block_apart(stack: Seq<char>, a: Seq<char>, b: Seq<char>, nested: bool)
    requires
        names::plain(a, usize::MAX as nat),
        names::plain(b, usize::MAX as nat),
        block_name(stack, a, nested) is Some,
        block_name(stack, a, nested) == block_name(stack, b, nested),
    ensures
        a == b,
{
    let (n, sa) = names::numbered(a, usize::MAX as nat)->0;
    let (m, sb) = names::numbered(b, usize::MAX as nat)->0;
    let (la, lb) = if nested {
        (nested_leaf(sa), nested_leaf(sb))
    } else {
        (block_leaf(sa), block_leaf(sb))
    };
    names::lemma_joined_same(stack + ".blk."@, n, la->0, m, lb->0);
    if nested {
        lemma_nested_leaf_apart(sa, sb);
    } else {
        lemma_block_leaf_apart(sa, sb);
    }
}

/// A block's name starts with its stack's and the word for a block.
proof fn lemma_block_starts(stack: Seq<char>, a: Seq<char>, nested: bool)
    requires
        block_name(stack, a, nested) is Some,
    ensures
        text::has_prefix(block_name(stack, a, nested)->0, stack + ".blk."@),
{
    let (n, s) = names::numbered(a, usize::MAX as nat)->0;
    let l = if nested {
        nested_leaf(s)
    } else {
        block_leaf(s)
    };
    let whole = names::joined(stack + ".blk."@, n, l->0);
    assert(whole.subrange(0, (stack + ".blk."@).len() as int) =~= stack + ".blk."@);
}

/// A stack's name is that of the stack and a dot, and then tells blocks and the rest apart.
proof fn lemma_stack_starts(stack: Seq<char>, a: Seq<char>, is_col: bool)
    requires
        stack_name(stack, a, is_col) is Some,
    ensures
        text::has_prefix(stack_name(stack, a, is_col)->0, stack),
        stack_name(stack, a, is_col)->0.len() > stack.len() + 1,
        stack_name(stack, a, is_col)->0[stack.len() as int + 1] == (if is_col {
            if text::has_prefix(a, "tf_col.blocks."@) {
                'b'
            } else {
                'o'
            }
        } else if a == "tf_row.rope.freqs"@ {
            'r'
        } else if text::has_prefix(a, "tf_row.blocks."@) {
            'b'
        } else {
            'o'
        }),
{
    reveal_strlit(".blk.");
    reveal_strlit(".rope_freqs");
    reveal_strlit(".out_norm.weight");
    reveal_strlit(".out_w.weight");
    reveal_strlit(".out_w.bias");
    let g = stack_name(stack, a, is_col)->0;
    let start = stack + ".blk."@;
    if is_col && text::has_prefix(a, "tf_col.blocks."@) {
        lemma_block_starts(stack, text::without_prefix(a, "tf_col.blocks."@), true);
        assert(g.subrange(0, start.len() as int)[stack.len() as int + 1] == start[stack.len() as int + 1]);
        assert(g.subrange(0, stack.len() as int) =~= stack) by {
            assert forall|i: int| 0 <= i < stack.len() implies g[i] == stack[i] by {
                assert(g.subrange(0, start.len() as int)[i] == start[i]);
            }
        }
    } else if !is_col && a != "tf_row.rope.freqs"@ && text::has_prefix(a, "tf_row.blocks."@) {
        lemma_block_starts(stack, text::without_prefix(a, "tf_row.blocks."@), false);
        assert(g.subrange(0, start.len() as int)[stack.len() as int + 1] == start[stack.len() as int + 1]);
        assert(g.subrange(0, stack.len() as int) =~= stack) by {
            assert forall|i: int| 0 <= i < stack.len() implies g[i] == stack[i] by {
                assert(g.subrange(0, start.len() as int)[i] == start[i]);
            }
        }
    } else {
        assert(g.subrange(0, stack.len() as int) =~= stack);
    }
}

/// Tensors of one stack with one name are the same.
proof fn lemma_stack_apart(stack: Seq<char>, a: Seq<char>, b: Seq<char>, is_col: bool)
    requires
        names::canonical(a, usize::MAX as nat),
        names::canonical(b, usize::MAX as nat),
        stack_name(stack, a, is_col) is Some,
        stack_name(stack, a, is_col) == stack_name(stack, b, is_col),
    ensures
        a == b,
{
    lemma_stack_starts(stack, a, is_col);
    lemma_stack_starts(stack, b, is_col);
    let prefix = if is_col {
        "tf_col.blocks."@
    } else {
        "tf_row.blocks."@
    };
    reveal_strlit("tf_col.blocks.");
    reveal_strlit("tf_row.blocks.");
    if text::has_prefix(a, prefix) && text::has_prefix(b, prefix) && (is_col || a != "tf_row.rope.freqs"@) {
        names::lemma_plain_rest(a, prefix, usize::MAX as nat);
        names::lemma_plain_rest(b, prefix, usize::MAX as nat);
        lemma_block_apart(stack, text::without_prefix(a, prefix), text::without_prefix(b, prefix), is_col);
        names::lemma_same_rest(a, b, prefix);
    } else if is_col {
        lemma_behind(stack, column_leaf(a)->0, column_leaf(b)->0);
        lemma_column_leaf_apart(a, b);
    }
}

/// How a perceptron's name starts.
proof fn lemma_mlp_starts(base: Seq<char>, a: Seq<char>)
    requires
        mlp_leaf(base, a) is Some,
    ensures
        mlp_leaf(base, a)->0.len() > base.len() + 1,
        mlp_leaf(base, a)->0[base.len() as int + 1] == 'm',
        forall|i: int| 0 <= i < base.len() ==> #[trigger] mlp_leaf(base, a)->0[i] == base[i],
{
    reveal_strlit(".mlp.");
}

/// Tensors of the cell embedder with one name are the same.
proof fn lemma_cell_apart(a: Seq<char>, b: Seq<char>)
    requires
        names::canonical(a, usize::MAX as nat),
        names::canonical(b, usize::MAX as nat),
        cell_name(a) is Some,
        cell_name(a) == cell_name(b),
    ensures
        a == b,
{
    let prefix = "y_embedder_lookup.layers."@;
    reveal_strlit("y_embedder_lookup.layers.");
    reveal_strlit("cell.y_embed");
    let (ra, rb) = (text::without_prefix(a, prefix), text::without_prefix(b, prefix));
    if cell_leaf(a) is Some {
        lemma_cell_leaf_starts(a);
        if cell_leaf(b) is Some {
            lemma_cell_leaf_apart(a, b);
        } else {
            lemma_mlp_starts("cell.y_embed"@, rb);
        }
    } else {
        lemma_mlp_starts("cell.y_embed"@, ra);
        if cell_leaf(b) is Some {
            lemma_cell_leaf_starts(b);
        } else {
            names::lemma_plain_rest(a, prefix, usize::MAX as nat);
            names::lemma_plain_rest(b, prefix, usize::MAX as nat);
            lemma_mlp_apart("cell.y_embed"@, ra, rb);
            names::lemma_same_rest(a, b, prefix);
        }
    }
}

/// How the leaves of the cell embedder start, and that none is a perceptron's.
proof fn lemma_cell_leaf_starts(a: Seq<char>)
    requires
        cell_leaf(a) is Some,
    ensures
        cell_leaf(a)->0.len() > 13,
        cell_leaf(a)->0[0] == 'c',
        cell_leaf(a)->0[1] == 'e',
        cell_leaf(a)->0[5] != 'y' || cell_leaf(a)->0[13] != 'm',
{
    reveal_strlit("cell.fourier_freq");
    reveal_strlit("cell.fourier_freq_cat");
    reveal_strlit("cell.in_linear.weight");
    reveal_strlit("cell.in_linear.bias");
    reveal_strlit("cell.in_linear_cat.weight");
    reveal_strlit("cell.in_linear_cat.bias");
    reveal_strlit("cell.y_embed.weight");
}

/// How the leaves of the predictor start, and that none is a block's or a perceptron's.
proof fn lemma_icl_leaf_starts(a: Seq<char>)
    requires
        icl_leaf(a) is Some,
    ensures
        icl_leaf(a)->0.len() > 14,
        icl_leaf(a)->0[0] == 'i',
        icl_leaf(a)->0[4] == 'o' || (icl_leaf(a)->0[4] == 'y' && icl_leaf(a)->0[14] == 'p'),
{
    reveal_strlit("icl.out_norm.weight");
    reveal_strlit("icl.y_encoder.projection.weight");
    reveal_strlit("icl.y_encoder.projection.bias");
}

/// How a name of the predictor starts, which tells blocks, leaves and the two perceptrons apart.
proof fn lemma_icl_starts(a: Seq<char>)
    requires
        icl_name(a) is Some,
    ensures
        icl_name(a)->0.len() > 4,
        icl_name(a)->0[0] == 'i',
        text::has_prefix(a, "tf_icl.blocks."@) <==> icl_name(a)->0[4] == 'b',
        !text::has_prefix(a, "tf_icl.blocks."@) ==> icl_name(a)->0.len() > 12,
        !text::has_prefix(a, "tf_icl.blocks."@) && icl_leaf(a) is None ==> (if text::has_prefix(
            a,
            "y_encoder.layers."@,
        ) {
            icl_name(a)->0.len() > 14 && icl_name(a)->0[4] == 'y' && icl_name(a)->0[14] == 'm'
        } else {
            icl_name(a)->0[4] == 'd'
        }),
{
    reveal_strlit("icl");
    reveal_strlit(".blk.");
    reveal_strlit("icl.y_encoder");
    reveal_strlit("icl.decoder");
    let g = icl_name(a)->0;
    if text::has_prefix(a, "tf_icl.blocks."@) {
        lemma_block_starts("icl"@, text::without_prefix(a, "tf_icl.blocks."@), false);
        let start = "icl"@ + ".blk."@;
        assert(g.subrange(0, start.len() as int)[0] == start[0]);
        assert(g.subrange(0, start.len() as int)[4] == start[4]);
    } else if icl_leaf(a) is Some {
        lemma_icl_leaf_starts(a);
    } else if text::has_prefix(a, "y_encoder.layers."@) {
        lemma_mlp_starts("icl.y_encoder"@, text::without_prefix(a, "y_encoder.layers."@));
        assert(g[0] == "icl.y_encoder"@[0] && g[4] == "icl.y_encoder"@[4]);
    } else {
        lemma_mlp_starts("icl.decoder"@, text::without_prefix(a, "decoder.layers."@));
        assert(g[0] == "icl.decoder"@[0] && g[4] == "icl.decoder"@[4]);
    }
}

/// Tensors of the predictor with one name are the same.
proof fn lemma_icl_apart(a: Seq<char>, b: Seq<char>)
    requires
        names::canonical(a, usize::MAX as nat),
        names::canonical(b, usize::MAX as nat),
        icl_name(a) is Some,
        icl_name(a) == icl_name(b),
    ensures
        a == b,
{
    reveal_strlit("tf_icl.blocks.");
    reveal_strlit("y_encoder.layers.");
    reveal_strlit("decoder.layers.");
    lemma_icl_starts(a);
    lemma_icl_starts(b);
    let prefix = if text::has_prefix(a, "tf_icl.blocks."@) {
        "tf_icl.blocks."@
    } else if text::has_prefix(a, "y_encoder.layers."@) {
        "y_encoder.layers."@
    } else {
        "decoder.layers."@
    };
    let (ra, rb) = (text::without_prefix(a, prefix), text::without_prefix(b, prefix));
    if text::has_prefix(a, "tf_icl.blocks."@) {
        names::lemma_plain_rest(a, prefix, usize::MAX as nat);
        names::lemma_plain_rest(b, prefix, usize::MAX as nat);
        lemma_block_apart("icl"@, ra, rb, false);
        names::lemma_same_rest(a, b, prefix);
    } else if icl_leaf(a) is Some || icl_leaf(b) is Some {
        if icl_leaf(a) is Some {
            lemma_icl_leaf_starts(a);
        }
        if icl_leaf(b) is Some {
            lemma_icl_leaf_starts(b);
        }
        if icl_leaf(a) is Some && icl_leaf(b) is Some {
            lemma_icl_leaf_apart(a, b);
        }
    } else {
        names::lemma_plain_rest(a, prefix, usize::MAX as nat);
        names::lemma_plain_rest(b, prefix, usize::MAX as nat);
        if text::has_prefix(a, "y_encoder.layers."@) {
            lemma_mlp_apart("icl.y_encoder"@, ra, rb);
        } else {
            lemma_mlp_apart("icl.decoder"@, ra, rb);
        }
        names::lemma_same_rest(a, b, prefix);
    }
}

/// The part of the model that a tensor belongs to, as the place of its prefix.
spec fn part(name: Seq<char>) -> int {
    if name == "cls_tokens"@ {
        0
    } else if text::has_prefix(name, "cell_embedder."@) {
        1
    } else if text::has_prefix(name, "col_embedder_2."@) {
        2
    } else if text::has_prefix(name, "col_embedder."@) {
        3
    } else if text::has_prefix(name, "row_interactor_2."@) {
        4
    } else if text::has_prefix(name, "row_interactor."@) {
        5
    } else {
        6
    }
}

/// A name tells the part of the model.
proof fn lemma_part_starts(name: Seq<char>)
    requires
        mapped_name(name) is Some,
    ensures
        ({
            let g = mapped_name(name)->0;
            &&& g.len() > 4
            &&& part(name) == 0 ==> g[0] == 'c' && g[1] == 'l'
            &&& part(name) == 1 ==> g[0] == 'c' && g[1] == 'e'
            &&& part(name) == 2 ==> g.len() > 6 && g[0] == 'c' && g[1] == 'o' && g[6] == '2'
            &&& part(name) == 3 ==> g.len() > 6 && g[0] == 'c' && g[1] == 'o' && g[6] == '1'
            &&& part(name) == 4 ==> g.len() > 6 && g[0] == 'r' && g[6] == '2'
            &&& part(name) == 5 ==> g.len() > 6 && g[0] == 'r' && g[6] == '1'
            &&& part(name) == 6 ==> g[0] == 'i'
        }),
{
    let g = mapped_name(name)->0;
    reveal_strlit("cls_tokens");
    reveal_strlit("cell.y_embed");
    reveal_strlit("colenc1");
    reveal_strlit("colenc2");
    reveal_strlit("rowenc1");
    reveal_strlit("rowenc2");
    if part(name) == 1 {
        let rest = text::without_prefix(name, "cell_embedder."@);
        if cell_leaf(rest) is Some {
            lemma_cell_leaf_starts(rest);
        } else {
            lemma_mlp_starts("cell.y_embed"@, text::without_prefix(rest, "y_embedder_lookup.layers."@));
            assert(g[0] == "cell.y_embed"@[0] && g[1] == "cell.y_embed"@[1]);
        }
    } else if 2 <= part(name) <= 5 {
        let (stack, rest) = if part(name) == 2 {
            ("colenc2"@, text::without_prefix(name, "col_embedder_2."@))
        } else if part(name) == 3 {
            ("colenc1"@, text::without_prefix(name, "col_embedder."@))
        } else if part(name) == 4 {
            ("rowenc2"@, text::without_prefix(name, "row_interactor_2."@))
        } else {
            ("rowenc1"@, text::without_prefix(name, "row_interactor."@))
        };
        lemma_stack_starts(stack, rest, part(name) <= 3);
        let start = g.subrange(0, stack.len() as int);
        assert(start[0] == g[0] && start[1] == g[1] && start[6] == g[6]);
    } else if part(name) == 6 {
        lemma_icl_starts(text::without_prefix(name, "icl_predictor."@));
    }
}

/// Different tensors keep different names, where the blocks' and layers' numbers are written as their
/// decimals.
pub proof fn law_names_kept_apart(a: Seq<char>, b: Seq<char>)
    requires
        names::canonical(a, usize::MAX as nat),
        names::canonical(b, usize::MAX as nat),
        mapped_name(a) is Some,
        mapped_name(b) is Some,
        a != b,
    ensures
        mapped_name(a) != mapped_name(b),
{
    if mapped_name(a) == mapped_name(b) {
        lemma_part_starts(a);
        lemma_part_starts(b);
        let max = usize::MAX as nat;
        let prefix = if part(a) == 1 {
            "cell_embedder."@
        } else if part(a) == 2 {
            "col_embedder_2."@
        } else if part(a) == 3 {
            "col_embedder."@
        } else if part(a) == 4 {
            "row_interactor_2."@
        } else if part(a) == 5 {
            "row_interactor."@
        } else {
            "icl_predictor."@
        };
        reveal_strlit("cell_embedder.");
        reveal_strlit("col_embedder_2.");
        reveal_strlit("col_embedder.");
        reveal_strlit("row_interactor_2.");
        reveal_strlit("row_interactor.");
        reveal_strlit("icl_predictor.");
        assert(part(a) == part(b));
        if part(a) != 0 {
            let (ra, rb) = (text::without_prefix(a, prefix), text::without_prefix(b, prefix));
            names::lemma_canonical_rest(a, prefix, max);
            names::lemma_canonical_rest(b, prefix, max);
            if part(a) == 1 {
                lemma_cell_apart(ra, rb);
            } else if part(a) == 2 {
                lemma_stack_apart("colenc2"@, ra, rb, true);
            } else if part(a) == 3 {
                lemma_stack_apart("colenc1"@, ra, rb, true);
            } else if part(a) == 4 {
                lemma_stack_apart("rowenc2"@, ra, rb, false);
            } else if part(a) == 5 {
                lemma_stack_apart("rowenc1"@, ra, rb, false);
            } else {
                lemma_icl_apart(ra, rb);
            }
            names::lemma_same_rest(a, b, prefix);
        }
    }
}

/// The tensors of the cell embedding, one by one.
proof fn lemma_cell_leaf_listed()
    ensures
        cell_leaf("fourier_frequencies"@) == Some("cell.fourier_freq"@),
        cell_leaf("fourier_frequencies_cat"@) == Some("cell.fourier_freq_cat"@),
        cell_leaf("in_linear.weight"@) == Some("cell.in_linear.weight"@),
        cell_leaf("in_linear.bias"@) == Some("cell.in_linear.bias"@),
        cell_leaf("in_linear_cat.weight"@) == Some("cell.in_linear_cat.weight"@),
        cell_leaf("in_linear_cat.bias"@) == Some("cell.in_linear_cat.bias"@),
        cell_leaf("y_embedder_lookup.weight"@) == Some("cell.y_embed.weight"@),
{
    reveal_strlit("fourier_frequencies");
    reveal_strlit("fourier_frequencies_cat");
    reveal_strlit("in_linear.weight");
    reveal_strlit("in_linear.bias");
    reveal_strlit("in_linear_cat.weight");
    reveal_strlit("in_linear_cat.bias");
    reveal_strlit("y_embedder_lookup.weight");
    assert("fourier_frequencies"@.len() == 19);
    assert("fourier_frequencies_cat"@.len() == 23);
    assert("in_linear.weight"@.len() == 16);
    assert("in_linear.bias"@.len() == 14);
    assert("in_linear_cat.weight"@.len() == 20);
    assert("in_linear_cat.bias"@.len() == 18);
    assert("y_embedder_lookup.weight"@.len() == 24);
}

/// The tensors of the attention, one by one.
proof fn lemma_attention_leaf_listed()
    ensures
        attention_leaf("q_proj.weight"@) == Some("attn_q.weight"@),
        attention_leaf("q_proj.bias"@) == Some("attn_q.bias"@),
        attention_leaf("k_proj.weight"@) == Some("attn_k.weight"@),
        attention_leaf("k_proj.bias"@) == Some("attn_k.bias"@),
        attention_leaf("v_proj.weight"@) == Some("attn_v.weight"@),
        attention_leaf("v_proj.bias"@) == Some("attn_v.bias"@),
        attention_leaf("out_proj.weight"@) == Some("attn_o.weight"@),
        attention_leaf("out_proj.bias"@) == Some("attn_o.bias"@),
        attention_leaf("query_ln.weight"@) == Some("q_norm.weight"@),
        attention_leaf("key_ln.weight"@) == Some("k_norm.weight"@),
        attention_leaf("per_dim_scale"@) == Some("per_dim_scale"@),
{
    reveal_strlit("q_proj.weight");
    reveal_strlit("q_proj.bias");
    reveal_strlit("k_proj.weight");
    reveal_strlit("k_proj.bias");
    reveal_strlit("v_proj.weight");
    reveal_strlit("v_proj.bias");
    reveal_strlit("out_proj.weight");
    reveal_strlit("out_proj.bias");
    reveal_strlit("query_ln.weight");
    reveal_strlit("key_ln.weight");
    reveal_strlit("per_dim_scale");
    assert("q_proj.weight"@.len() == 13 && "q_proj.weight"@[0] == 'q' && "q_proj.weight"@[1] == '_');
    assert("q_proj.bias"@.len() == 11 && "q_proj.bias"@[0] == 'q' && "q_proj.bias"@[1] == '_');
    assert("k_proj.weight"@.len() == 13 && "k_proj.weight"@[0] == 'k' && "k_proj.weight"@[1] == '_');
    assert("k_proj.bias"@.len() == 11 && "k_proj.bias"@[0] == 'k' && "k_proj.bias"@[1] == '_');
    assert("v_proj.weight"@.len() == 13 && "v_proj.weight"@[0] == 'v' && "v_proj.weight"@[1] == '_');
    assert("v_proj.bias"@.len() == 11 && "v_proj.bias"@[0] == 'v' && "v_proj.bias"@[1] == '_');
    assert("out_proj.weight"@.len() == 15 && "out_proj.weight"@[0] == 'o' && "out_proj.weight"@[1] == 'u');
    assert("out_proj.bias"@.len() == 13 && "out_proj.bias"@[0] == 'o' && "out_proj.bias"@[1] == 'u');
    assert("query_ln.weight"@.len() == 15 && "query_ln.weight"@[0] == 'q' && "query_ln.weight"@[1] == 'u');
    assert("key_ln.weight"@.len() == 13 && "key_ln.weight"@[0] == 'k' && "key_ln.weight"@[1] == 'e');
    assert("per_dim_scale"@.len() == 13 && "per_dim_scale"@[0] == 'p' && "per_dim_scale"@[1] == 'e');
}

/// The tensors of the feed-forward part, one by one.
proof fn lemma_feed_forward_leaf_listed()
    ensures
        feed_forward_leaf("pre_attn_ln.weight"@) == Some("pre_attn_norm.weight"@),
        feed_forward_leaf("post_attn_ln.weight"@) == Some("post_attn_norm.weight"@),
        feed_forward_leaf("pre_ff_ln.weight"@) == Some("pre_ff_norm.weight"@),
        feed_forward_leaf("post_ff_ln.weight"@) == Some("post_ff_norm.weight"@),
        feed_forward_leaf("linear1.weight"@) == Some("ffn_up.weight"@),
        feed_forward_leaf("linear1.bias"@) == Some("ffn_up.bias"@),
        feed_forward_leaf("linear1_gate.weight"@) == Some("ffn_gate.weight"@),
        feed_forward_leaf("linear1_gate.bias"@) == Some("ffn_gate.bias"@),
        feed_forward_leaf("linear2.weight"@) == Some("ffn_down.weight"@),
        feed_forward_leaf("linear2.bias"@) == Some("ffn_down.bias"@),
{
    reveal_strlit("pre_attn_ln.weight");
    reveal_strlit("post_attn_ln.weight");
    reveal_strlit("pre_ff_ln.weight");
    reveal_strlit("post_ff_ln.weight");
    reveal_strlit("linear1.weight");
    reveal_strlit("linear1.bias");
    reveal_strlit("linear1_gate.weight");
    reveal_strlit("linear1_gate.bias");
    reveal_strlit("linear2.weight");
    reveal_strlit("linear2.bias");
    assert("pre_attn_ln.weight"@.len() == 18 && "pre_attn_ln.weight"@[6] == 't');
    assert("post_attn_ln.weight"@.len() == 19 && "post_attn_ln.weight"@[6] == 't');
    assert("pre_ff_ln.weight"@.len() == 16 && "pre_ff_ln.weight"@[6] == '_');
    assert("post_ff_ln.weight"@.len() == 17 && "post_ff_ln.weight"@[6] == 'f');
    assert("linear1.weight"@.len() == 14 && "linear1.weight"@[6] == '1');
    assert("linear1.bias"@.len() == 12 && "linear1.bias"@[6] == '1');
    assert("linear1_gate.weight"@.len() == 19 && "linear1_gate.weight"@[6] == '1');
    assert("linear1_gate.bias"@.len() == 17 && "linear1_gate.bias"@[6] == '1');
    assert("linear2.weight"@.len() == 14 && "linear2.weight"@[6] == '2');
    assert("linear2.bias"@.len() == 12 && "linear2.bias"@[6] == '2');
}

/// The tensors of the column stacks, one by one.
proof fn lemma_column_leaf_listed()
    ensures
        column_leaf("out_w.weight"@) == Some(".out_w.weight"@),
        column_leaf("out_w.bias"@) == Some(".out_w.bias"@),
        column_leaf("ln_w.weight"@) == Some(".out_norm.weight"@),
{
    reveal_strlit("out_w.weight");
    reveal_strlit("out_w.bias");
    reveal_strlit("ln_w.weight");
    assert("out_w.weight"@.len() == 12);
    assert("out_w.bias"@.len() == 10);
    assert("ln_w.weight"@.len() == 11);
}

/// The tensors of the in-context-learning part, one by one.
proof fn lemma_icl_leaf_listed()
    ensures
        icl_leaf("ln.weight"@) == Some("icl.out_norm.weight"@),
        icl_leaf("y_encoder.projection.weight"@) == Some("icl.y_encoder.projection.weight"@),
        icl_leaf("y_encoder.projection.bias"@) == Some("icl.y_encoder.projection.bias"@),
{
    reveal_strlit("ln.weight");
    reveal_strlit("y_encoder.projection.weight");
    reveal_strlit("y_encoder.projection.bias");
    assert("ln.weight"@.len() == 9);
    assert("y_encoder.projection.weight"@.len() == 27);
    assert("y_encoder.projection.bias"@.len() == 25);
}

/// What the tensors of every block are named within it.
pub proof fn law_block_leaves()
    ensures
        block_leaf("attn."@ + "q_proj.weight"@) == Some("attn_q.weight"@),
        block_leaf("attn."@ + "q_proj.bias"@) == Some("attn_q.bias"@),
        block_leaf("attn."@ + "k_proj.weight"@) == Some("attn_k.weight"@),
        block_leaf("attn."@ + "k_proj.bias"@) == Some("attn_k.bias"@),
        block_leaf("attn."@ + "v_proj.weight"@) == Some("attn_v.weight"@),
        block_leaf("attn."@ + "v_proj.bias"@) == Some("attn_v.bias"@),
        block_leaf("attn."@ + "out_proj.weight"@) == Some("attn_o.weight"@),
        block_leaf("attn."@ + "out_proj.bias"@) == Some("attn_o.bias"@),
        block_leaf("attn."@ + "query_ln.weight"@) == Some("q_norm.weight"@),
        block_leaf("attn."@ + "key_ln.weight"@) == Some("k_norm.weight"@),
        block_leaf("attn."@ + "per_dim_scale"@) == Some("per_dim_scale"@),
        block_leaf("pre_attn_ln.weight"@) == Some("pre_attn_norm.weight"@),
        block_leaf("post_attn_ln.weight"@) == Some("post_attn_norm.weight"@),
        block_leaf("pre_ff_ln.weight"@) == Some("pre_ff_norm.weight"@),
        block_leaf("post_ff_ln.weight"@) == Some("post_ff_norm.weight"@),
        block_leaf("linear1.weight"@) == Some("ffn_up.weight"@),
        block_leaf("linear1.bias"@) == Some("ffn_up.bias"@),
        block_leaf("linear1_gate.weight"@) == Some("ffn_gate.weight"@),
        block_leaf("linear1_gate.bias"@) == Some("ffn_gate.bias"@),
        block_leaf("linear2.weight"@) == Some("ffn_down.weight"@),
        block_leaf("linear2.bias"@) == Some("ffn_down.bias"@),
{
    lemma_attention_leaf_listed();
    lemma_feed_forward_leaf_listed();
    reveal_strlit("attn.");
    names::lemma_prefix_removed("attn."@, "q_proj.weight"@);
    names::lemma_prefix_removed("attn."@, "q_proj.bias"@);
    names::lemma_prefix_removed("attn."@, "k_proj.weight"@);
    names::lemma_prefix_removed("attn."@, "k_proj.bias"@);
    names::lemma_prefix_removed("attn."@, "v_proj.weight"@);
    names::lemma_prefix_removed("attn."@, "v_proj.bias"@);
    names::lemma_prefix_removed("attn."@, "out_proj.weight"@);
    names::lemma_prefix_removed("attn."@, "out_proj.bias"@);
    names::lemma_prefix_removed("attn."@, "query_ln.weight"@);
    names::lemma_prefix_removed("attn."@, "key_ln.weight"@);
    names::lemma_prefix_removed("attn."@, "per_dim_scale"@);
    reveal_strlit("pre_attn_ln.weight");
    assert("pre_attn_ln.weight"@[0] == 'p');
    lemma_not_attention("pre_attn_ln.weight"@);
    reveal_strlit("post_attn_ln.weight");
    assert("post_attn_ln.weight"@[0] == 'p');
    lemma_not_attention("post_attn_ln.weight"@);
    reveal_strlit("pre_ff_ln.weight");
    assert("pre_ff_ln.weight"@[0] == 'p');
    lemma_not_attention("pre_ff_ln.weight"@);
    reveal_strlit("post_ff_ln.weight");
    assert("post_ff_ln.weight"@[0] == 'p');
    lemma_not_attention("post_ff_ln.weight"@);
    reveal_strlit("linear1.weight");
    assert("linear1.weight"@[0] == 'l');
    lemma_not_attention("linear1.weight"@);
    reveal_strlit("linear1.bias");
    assert("linear1.bias"@[0] == 'l');
    lemma_not_attention("linear1.bias"@);
    reveal_strlit("linear1_gate.weight");
    assert("linear1_gate.weight"@[0] == 'l');
    lemma_not_attention("linear1_gate.weight"@);
    reveal_strlit("linear1_gate.bias");
    assert("linear1_gate.bias"@[0] == 'l');
    lemma_not_attention("linear1_gate.bias"@);
    reveal_strlit("linear2.weight");
    assert("linear2.weight"@[0] == 'l');
    lemma_not_attention("linear2.weight"@);
    reveal_strlit("linear2.bias");
    assert("linear2.bias"@[0] == 'l');
    lemma_not_attention("linear2.bias"@);
}

proof fn lemma_not_attention(leaf: Seq<char>)
    requires
        leaf.len() > 0,
        leaf[0] != 'a',
    ensures
        !text::has_prefix(leaf, "attn."@),
{
    reveal_strlit("attn.");
    if text::has_prefix(leaf, "attn."@) {
        assert(leaf.subrange(0, 5)[0] == leaf[0]);
    }
}

/// Each part of the model has a prefix of its own.
proof fn lemma_parts(rest: Seq<char>)
    ensures
        mapped_name("cell_embedder."@ + rest) == cell_name(rest),
        mapped_name("col_embedder_2."@ + rest) == stack_name("colenc2"@, rest, true),
        mapped_name("col_embedder."@ + rest) == stack_name("colenc1"@, rest, true),
        mapped_name("row_interactor_2."@ + rest) == stack_name("rowenc2"@, rest, false),
        mapped_name("row_interactor."@ + rest) == stack_name("rowenc1"@, rest, false),
        mapped_name("icl_predictor."@ + rest) == icl_name(rest),
        mapped_name("cls_tokens"@) == Some("cls_tokens"@),
{
    reveal_strlit("cls_tokens");
    reveal_strlit("cell_embedder.");
    reveal_strlit("col_embedder_2.");
    reveal_strlit("col_embedder.");
    reveal_strlit("row_interactor_2.");
    reveal_strlit("row_interactor.");
    reveal_strlit("icl_predictor.");
    names::lemma_prefix_removed("cell_embedder."@, rest);
    names::lemma_other_prefix("cell_embedder."@, rest, "cls_tokens"@, 1);
    names::lemma_prefix_removed("col_embedder_2."@, rest);
    names::lemma_other_prefix("col_embedder_2."@, rest, "cls_tokens"@, 1);
    names::lemma_other_prefix("col_embedder_2."@, rest, "cell_embedder."@, 1);
    names::lemma_prefix_removed("col_embedder."@, rest);
    names::lemma_other_prefix("col_embedder."@, rest, "cls_tokens"@, 1);
    names::lemma_other_prefix("col_embedder."@, rest, "cell_embedder."@, 1);
    names::lemma_other_prefix("col_embedder."@, rest, "col_embedder_2."@, 12);
    names::lemma_prefix_removed("row_interactor_2."@, rest);
    names::lemma_other_prefix("row_interactor_2."@, rest, "cls_tokens"@, 0);
    names::lemma_other_prefix("row_interactor_2."@, rest, "cell_embedder."@, 0);
    names::lemma_other_prefix("row_interactor_2."@, rest, "col_embedder_2."@, 0);
    names::lemma_other_prefix("row_interactor_2."@, rest, "col_embedder."@, 0);
    names::lemma_prefix_removed("row_interactor."@, rest);
    names::lemma_other_prefix("row_interactor."@, rest, "cls_tokens"@, 0);
    names::lemma_other_prefix("row_interactor."@, rest, "cell_embedder."@, 0);
    names::lemma_other_prefix("row_interactor."@, rest, "col_embedder_2."@, 0);
    names::lemma_other_prefix("row_interactor."@, rest, "col_embedder."@, 0);
    names::lemma_other_prefix("row_interactor."@, rest, "row_interactor_2."@, 14);
    names::lemma_prefix_removed("icl_predictor."@, rest);
    names::lemma_other_prefix("icl_predictor."@, rest, "cls_tokens"@, 0);
    names::lemma_other_prefix("icl_predictor."@, rest, "cell_embedder."@, 0);
    names::lemma_other_prefix("icl_predictor."@, rest, "col_embedder_2."@, 0);
    names::lemma_other_prefix("icl_predictor."@, rest, "col_embedder."@, 0);
    names::lemma_other_prefix("icl_predictor."@, rest, "row_interactor_2."@, 0);
    names::lemma_other_prefix("icl_predictor."@, rest, "row_interactor."@, 0);
}

/// What the tensors that stand in no block are named.
pub proof fn law_plain_names()
    ensures
        mapped_name("cls_tokens"@) == Some("cls_tokens"@),
        mapped_name("cell_embedder."@ + "fourier_frequencies"@) == Some("cell.fourier_freq"@),
        mapped_name("cell_embedder."@ + "fourier_frequencies_cat"@) == Some("cell.fourier_freq_cat"@),
        mapped_name("cell_embedder."@ + "in_linear.weight"@) == Some("cell.in_linear.weight"@),
        mapped_name("cell_embedder."@ + "in_linear.bias"@) == Some("cell.in_linear.bias"@),
        mapped_name("cell_embedder."@ + "in_linear_cat.weight"@) == Some("cell.in_linear_cat.weight"@),
        mapped_name("cell_embedder."@ + "in_linear_cat.bias"@) == Some("cell.in_linear_cat.bias"@),
        mapped_name("cell_embedder."@ + "y_embedder_lookup.weight"@) == Some("cell.y_embed.weight"@),
        mapped_name("icl_predictor."@ + "ln.weight"@) == Some("icl.out_norm.weight"@),
        mapped_name("icl_predictor."@ + "y_encoder.projection.weight"@) == Some("icl.y_encoder.projection.weight"@),
        mapped_name("icl_predictor."@ + "y_encoder.projection.bias"@) == Some("icl.y_encoder.projection.bias"@),
        mapped_name("col_embedder."@ + "out_w.weight"@) == Some("colenc1"@ + ".out_w.weight"@),
        mapped_name("col_embedder."@ + "out_w.bias"@) == Some("colenc1"@ + ".out_w.bias"@),
        mapped_name("col_embedder."@ + "ln_w.weight"@) == Some("colenc1"@ + ".out_norm.weight"@),
        mapped_name("col_embedder_2."@ + "out_w.weight"@) == Some("colenc2"@ + ".out_w.weight"@),
        mapped_name("col_embedder_2."@ + "out_w.bias"@) == Some("colenc2"@ + ".out_w.bias"@),
        mapped_name("col_embedder_2."@ + "ln_w.weight"@) == Some("colenc2"@ + ".out_norm.weight"@),
        mapped_name("row_interactor."@ + "tf_row.rope.freqs"@) == Some("rowenc1"@ + ".rope_freqs"@),
        mapped_name("row_interactor."@ + "out_ln.weight"@) == Some("rowenc1"@ + ".out_norm.weight"@),
        mapped_name("row_interactor_2."@ + "tf_row.rope.freqs"@) == Some("rowenc2"@ + ".rope_freqs"@),
        mapped_name("row_interactor_2."@ + "out_ln.weight"@) == Some("rowenc2"@ + ".out_norm.weight"@),
{
    lemma_cell_leaf_listed();
    lemma_icl_leaf_listed();
    lemma_column_leaf_listed();
    lemma_parts("fourier_frequencies"@);
    lemma_parts("fourier_frequencies_cat"@);
    lemma_parts("in_linear.weight"@);
    lemma_parts("in_linear.bias"@);
    lemma_parts("in_linear_cat.weight"@);
    lemma_parts("in_linear_cat.bias"@);
    lemma_parts("y_embedder_lookup.weight"@);
    lemma_parts("ln.weight"@);
    lemma_parts("y_encoder.projection.weight"@);
    lemma_parts("y_encoder.projection.bias"@);
    lemma_parts("out_w.weight"@);
    lemma_parts("out_w.bias"@);
    lemma_parts("ln_w.weight"@);
    lemma_parts("tf_row.rope.freqs"@);
    lemma_parts("out_ln.weight"@);
    reveal_strlit("tf_icl.blocks.");
    reveal_strlit("tf_col.blocks.");
    reveal_strlit("tf_row.blocks.");
    reveal_strlit("out_ln.weight");
    reveal_strlit("tf_row.rope.freqs");
    reveal_strlit("ln.weight");
    names::lemma_other_prefix("ln.weight"@, Seq::empty(), "tf_icl.blocks."@, 0);
    assert("ln.weight"@ + Seq::empty() =~= "ln.weight"@);
    reveal_strlit("y_encoder.projection.weight");
    names::lemma_other_prefix("y_encoder.projection.weight"@, Seq::empty(), "tf_icl.blocks."@, 0);
    assert("y_encoder.projection.weight"@ + Seq::empty() =~= "y_encoder.projection.weight"@);
    reveal_strlit("y_encoder.projection.bias");
    names::lemma_other_prefix("y_encoder.projection.bias"@, Seq::empty(), "tf_icl.blocks."@, 0);
    assert("y_encoder.projection.bias"@ + Seq::empty() =~= "y_encoder.projection.bias"@);
    reveal_strlit("out_w.weight");
    names::lemma_other_prefix("out_w.weight"@, Seq::empty(), "tf_col.blocks."@, 0);
    assert("out_w.weight"@ + Seq::empty() =~= "out_w.weight"@);
    reveal_strlit("out_w.bias");
    names::lemma_other_prefix("out_w.bias"@, Seq::empty(), "tf_col.blocks."@, 0);
    assert("out_w.bias"@ + Seq::empty() =~= "out_w.bias"@);
    reveal_strlit("ln_w.weight");
    names::lemma_other_prefix("ln_w.weight"@, Seq::empty(), "tf_col.blocks."@, 0);
    assert("ln_w.weight"@ + Seq::empty() =~= "ln_w.weight"@);
    names::lemma_other_prefix("out_ln.weight"@, Seq::empty(), "tf_row.blocks."@, 0);
    assert("out_ln.weight"@ + Seq::empty() =~= "out_ln.weight"@);
    assert("out_ln.weight"@[0] == 'o' && "tf_row.rope.freqs"@[0] == 't');
}

/// What the layers of the perceptrons are named.
pub proof fn law_perceptron_names(idx: nat)
    requires
        idx <= usize::MAX,
    ensures
        mapped_name("cell_embedder."@ + ("y_embedder_lookup.layers."@ + (text::decimal(idx) + "."@ + "weight"@))) == Some(
            "cell.y_embed"@ + ".mlp."@ + text::decimal(idx) + "."@ + "weight"@,
        ),
        mapped_name("cell_embedder."@ + ("y_embedder_lookup.layers."@ + (text::decimal(idx) + "."@ + "bias"@))) == Some(
            "cell.y_embed"@ + ".mlp."@ + text::decimal(idx) + "."@ + "bias"@,
        ),
        mapped_name("icl_predictor."@ + ("y_encoder.layers."@ + (text::decimal(idx) + "."@ + "weight"@))) == Some(
            "icl.y_encoder"@ + ".mlp."@ + text::decimal(idx) + "."@ + "weight"@,
        ),
        mapped_name("icl_predictor."@ + ("y_encoder.layers."@ + (text::decimal(idx) + "."@ + "bias"@))) == Some(
            "icl.y_encoder"@ + ".mlp."@ + text::decimal(idx) + "."@ + "bias"@,
        ),
        mapped_name("icl_predictor."@ + ("decoder.layers."@ + (text::decimal(idx) + "."@ + "weight"@))) == Some(
            "icl.decoder"@ + ".mlp."@ + text::decimal(idx) + "."@ + "weight"@,
        ),
        mapped_name("icl_predictor."@ + ("decoder.layers."@ + (text::decimal(idx) + "."@ + "bias"@))) == Some(
            "icl.decoder"@ + ".mlp."@ + text::decimal(idx) + "."@ + "bias"@,
        ),
{
    reveal_strlit("y_embedder_lookup.layers.");
    reveal_strlit("y_encoder.layers.");
    reveal_strlit("decoder.layers.");
    reveal_strlit("tf_icl.blocks.");
    reveal_strlit("fourier_frequencies");
    reveal_strlit("fourier_frequencies_cat");
    reveal_strlit("in_linear.weight");
    reveal_strlit("in_linear.bias");
    reveal_strlit("in_linear_cat.weight");
    reveal_strlit("in_linear_cat.bias");
    reveal_strlit("y_embedder_lookup.weight");
    reveal_strlit("ln.weight");
    reveal_strlit("y_encoder.projection.weight");
    reveal_strlit("y_encoder.projection.bias");
    names::law_numbered_reads_back(idx, "weight"@, usize::MAX as nat);
    lemma_parts("y_embedder_lookup.layers."@ + (text::decimal(idx) + "."@ + "weight"@));
    names::lemma_prefix_removed("y_embedder_lookup.layers."@, (text::decimal(idx) + "."@ + "weight"@));
    names::lemma_other_prefix("y_embedder_lookup.layers."@, (text::decimal(idx) + "."@ + "weight"@), "fourier_frequencies"@, 0);
    names::lemma_other_prefix("y_embedder_lookup.layers."@, (text::decimal(idx) + "."@ + "weight"@), "fourier_frequencies_cat"@, 0);
    names::lemma_other_prefix("y_embedder_lookup.layers."@, (text::decimal(idx) + "."@ + "weight"@), "in_linear.weight"@, 0);
    names::lemma_other_prefix("y_embedder_lookup.layers."@, (text::decimal(idx) + "."@ + "weight"@), "in_linear.bias"@, 0);
    names::lemma_other_prefix("y_embedder_lookup.layers."@, (text::decimal(idx) + "."@ + "weight"@), "in_linear_cat.weight"@, 0);
    names::lemma_other_prefix("y_embedder_lookup.layers."@, (text::decimal(idx) + "."@ + "weight"@), "in_linear_cat.bias"@, 0);
    names::lemma_other_prefix("y_embedder_lookup.layers."@, (text::decimal(idx) + "."@ + "weight"@), "y_embedder_lookup.weight"@, 18);
    lemma_parts("y_encoder.layers."@ + (text::decimal(idx) + "."@ + "weight"@));
    names::lemma_prefix_removed("y_encoder.layers."@, (text::decimal(idx) + "."@ + "weight"@));
    names::lemma_other_prefix("y_encoder.layers."@, (text::decimal(idx) + "."@ + "weight"@), "tf_icl.blocks."@, 0);
    names::lemma_other_prefix("y_encoder.layers."@, (text::decimal(idx) + "."@ + "weight"@), "ln.weight"@, 0);
    names::lemma_other_prefix("y_encoder.layers."@, (text::decimal(idx) + "."@ + "weight"@), "y_encoder.projection.weight"@, 10);
    names::lemma_other_prefix("y_encoder.layers."@, (text::decimal(idx) + "."@ + "weight"@), "y_encoder.projection.bias"@, 10);
    lemma_parts("decoder.layers."@ + (text::decimal(idx) + "."@ + "weight"@));
    names::lemma_prefix_removed("decoder.layers."@, (text::decimal(idx) + "."@ + "weight"@));
    names::lemma_other_prefix("decoder.layers."@, (text::decimal(idx) + "."@ + "weight"@), "tf_icl.blocks."@, 0);
    names::lemma_other_prefix("decoder.layers."@, (text::decimal(idx) + "."@ + "weight"@), "ln.weight"@, 0);
    names::lemma_other_prefix("decoder.layers."@, (text::decimal(idx) + "."@ + "weight"@), "y_encoder.projection.weight"@, 0);
    names::lemma_other_prefix("decoder.layers."@, (text::decimal(idx) + "."@ + "weight"@), "y_encoder.projection.bias"@, 0);
    names::lemma_other_prefix("decoder.layers."@, (text::decimal(idx) + "."@ + "weight"@), "y_encoder.layers."@, 0);
    names::law_numbered_reads_back(idx, "bias"@, usize::MAX as nat);
    lemma_parts("y_embedder_lookup.layers."@ + (text::decimal(idx) + "."@ + "bias"@));
    names::lemma_prefix_removed("y_embedder_lookup.layers."@, (text::decimal(idx) + "."@ + "bias"@));
    names::lemma_other_prefix("y_embedder_lookup.layers."@, (text::decimal(idx) + "."@ + "bias"@), "fourier_frequencies"@, 0);
    names::lemma_other_prefix("y_embedder_lookup.layers."@, (text::decimal(idx) + "."@ + "bias"@), "fourier_frequencies_cat"@, 0);
    names::lemma_other_prefix("y_embedder_lookup.layers."@, (text::decimal(idx) + "."@ + "bias"@), "in_linear.weight"@, 0);
    names::lemma_other_prefix("y_embedder_lookup.layers."@, (text::decimal(idx) + "."@ + "bias"@), "in_linear.bias"@, 0);
    names::lemma_other_prefix("y_embedder_lookup.layers."@, (text::decimal(idx) + "."@ + "bias"@), "in_linear_cat.weight"@, 0);
    names::lemma_other_prefix("y_embedder_lookup.layers."@, (text::decimal(idx) + "."@ + "bias"@), "in_linear_cat.bias"@, 0);
    names::lemma_other_prefix("y_embedder_lookup.layers."@, (text::decimal(idx) + "."@ + "bias"@), "y_embedder_lookup.weight"@, 18);
    lemma_parts("y_encoder.layers."@ + (text::decimal(idx) + "."@ + "bias"@));
    names::lemma_prefix_removed("y_encoder.layers."@, (text::decimal(idx) + "."@ + "bias"@));
    names::lemma_other_prefix("y_encoder.layers."@, (text::decimal(idx) + "."@ + "bias"@), "tf_icl.blocks."@, 0);
    names::lemma_other_prefix("y_encoder.layers."@, (text::decimal(idx) + "."@ + "bias"@), "ln.weight"@, 0);
    names::lemma_other_prefix("y_encoder.layers."@, (text::decimal(idx) + "."@ + "bias"@), "y_encoder.projection.weight"@, 10);
    names::lemma_other_prefix("y_encoder.layers."@, (text::decimal(idx) + "."@ + "bias"@), "y_encoder.projection.bias"@, 10);
    lemma_parts("decoder.layers."@ + (text::decimal(idx) + "."@ + "bias"@));
    names::lemma_prefix_removed("decoder.layers."@, (text::decimal(idx) + "."@ + "bias"@));
    names::lemma_other_prefix("decoder.layers."@, (text::decimal(idx) + "."@ + "bias"@), "tf_icl.blocks."@, 0);
    names::lemma_other_prefix("decoder.layers."@, (text::decimal(idx) + "."@ + "bias"@), "ln.weight"@, 0);
    names::lemma_other_prefix("decoder.layers."@, (text::decimal(idx) + "."@ + "bias"@), "y_encoder.projection.weight"@, 0);
    names::lemma_other_prefix("decoder.layers."@, (text::decimal(idx) + "."@ + "bias"@), "y_encoder.projection.bias"@, 0);
    names::lemma_other_prefix("decoder.layers."@, (text::decimal(idx) + "."@ + "bias"@), "y_encoder.layers."@, 0);
}

/// What the tensors of every block of every stack are named: the stack, the block's number, and the
/// name within the block. The blocks of the columns hold two blocks each, and vectors.
pub proof fn law_stack_names(n: nat, leaf: Seq<char>)
    requires
        n <= usize::MAX,
        block_leaf(leaf) is Some,
    ensures
        mapped_name("row_interactor."@ + ("tf_row.blocks."@ + (text::decimal(n) + "."@ + leaf))) == Some(
            "rowenc1"@ + ".blk."@ + text::decimal(n) + "."@ + block_leaf(leaf)->0,
        ),
        mapped_name("row_interactor_2."@ + ("tf_row.blocks."@ + (text::decimal(n) + "."@ + leaf))) == Some(
            "rowenc2"@ + ".blk."@ + text::decimal(n) + "."@ + block_leaf(leaf)->0,
        ),
        mapped_name("icl_predictor."@ + ("tf_icl.blocks."@ + (text::decimal(n) + "."@ + leaf))) == Some(
            "icl"@ + ".blk."@ + text::decimal(n) + "."@ + block_leaf(leaf)->0,
        ),
        mapped_name("col_embedder."@ + ("tf_col.blocks."@ + (text::decimal(n) + "."@ + ("mab1."@ + leaf)))) == Some(
            "colenc1"@ + ".blk."@ + text::decimal(n) + "."@ + ("mab1."@ + block_leaf(leaf)->0),
        ),
        mapped_name("col_embedder."@ + ("tf_col.blocks."@ + (text::decimal(n) + "."@ + ("mab2."@ + leaf)))) == Some(
            "colenc1"@ + ".blk."@ + text::decimal(n) + "."@ + ("mab2."@ + block_leaf(leaf)->0),
        ),
        mapped_name("col_embedder."@ + ("tf_col.blocks."@ + (text::decimal(n) + "."@ + "ind_vectors"@))) == Some(
            "colenc1"@ + ".blk."@ + text::decimal(n) + "."@ + "ind_vectors"@,
        ),
        mapped_name("col_embedder_2."@ + ("tf_col.blocks."@ + (text::decimal(n) + "."@ + ("mab1."@ + leaf)))) == Some(
            "colenc2"@ + ".blk."@ + text::decimal(n) + "."@ + ("mab1."@ + block_leaf(leaf)->0),
        ),
        mapped_name("col_embedder_2."@ + ("tf_col.blocks."@ + (text::decimal(n) + "."@ + ("mab2."@ + leaf)))) == Some(
            "colenc2"@ + ".blk."@ + text::decimal(n) + "."@ + ("mab2."@ + block_leaf(leaf)->0),
        ),
        mapped_name("col_embedder_2."@ + ("tf_col.blocks."@ + (text::decimal(n) + "."@ + "ind_vectors"@))) == Some(
            "colenc2"@ + ".blk."@ + text::decimal(n) + "."@ + "ind_vectors"@,
        ),
{
    let max = usize::MAX as nat;
    reveal_strlit("tf_row.blocks.");
    reveal_strlit("tf_icl.blocks.");
    reveal_strlit("tf_col.blocks.");
    reveal_strlit("tf_row.rope.freqs");
    reveal_strlit("mab1.");
    reveal_strlit("mab2.");
    reveal_strlit("ind_vectors");
    let plain = text::decimal(n) + "."@ + leaf;
    names::law_numbered_reads_back(n, leaf, max);
    lemma_parts("tf_row.blocks."@ + plain);
    names::lemma_prefix_removed("tf_row.blocks."@, plain);
    lemma_parts("tf_icl.blocks."@ + plain);
    names::lemma_prefix_removed("tf_icl.blocks."@, plain);
    names::lemma_other_prefix("tf_row.blocks."@, plain, "tf_row.rope.freqs"@, 7);
    let first = text::decimal(n) + "."@ + ("mab1."@ + leaf);
    names::law_numbered_reads_back(n, "mab1."@ + leaf, max);
    lemma_parts("tf_col.blocks."@ + first);
    names::lemma_prefix_removed("tf_col.blocks."@, first);
    let second = text::decimal(n) + "."@ + ("mab2."@ + leaf);
    names::law_numbered_reads_back(n, "mab2."@ + leaf, max);
    lemma_parts("tf_col.blocks."@ + second);
    names::lemma_prefix_removed("tf_col.blocks."@, second);
    let vectors = text::decimal(n) + "."@ + ("ind_vectors"@);
    names::law_numbered_reads_back(n, "ind_vectors"@, max);
    lemma_parts("tf_col.blocks."@ + vectors);
    names::lemma_prefix_removed("tf_col.blocks."@, vectors);
    names::lemma_prefix_removed("mab1."@, leaf);
    names::lemma_prefix_removed("mab2."@, leaf);
    names::lemma_other_prefix("mab1."@, leaf, "ind_vectors"@, 0);
    names::lemma_other_prefix("mab2."@, leaf, "ind_vectors"@, 0);
    names::lemma_other_prefix("mab2."@, leaf, "mab1."@, 3);
}

} // verus!
