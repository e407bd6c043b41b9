//! TabDPT: names of the checkpoint's tensors in a GGUF file.

use vstd::prelude::*;

use crate::models::names;
use crate::text;

verus! {

/// The architecture of TabDPT. One checkpoint serves both tasks: the head gives class scores
/// first, then the bins of a distribution.
#[derive(Clone, Copy, Debug)]
pub struct TabDptConfig {
    pub dim: usize,
    pub n_layers: usize,
    pub n_heads: usize,
    pub ff_dim: usize,
    pub y_encoder_dim: usize,
    pub max_num_classes: usize,
    pub regression_bin_count: usize,
    /// Held as the bits of a 32-bit floating-point number.
    pub regression_bin_min: u32,
    /// Held as the bits of a 32-bit floating-point number.
    pub regression_bin_max: u32,
    pub max_num_features: usize,
    pub base_len: usize,
    pub max_len: usize,
    pub n_thinking_rows: usize,
}

impl TabDptConfig {
    /// The published model.
    pub fn default_v1_2() -> (r: Self)
        ensures
            r.dim == 512,
            r.n_layers == 32,
            r.n_heads == 8,
            r.ff_dim == 512,
            r.y_encoder_dim == 128,
            r.max_num_classes == 16,
            r.regression_bin_count == 2048,
            r.regression_bin_min == 0xc120_0000,
            r.regression_bin_max == 0x4120_0000,
            r.max_num_features == 128,
            r.base_len == 64,
            r.max_len == 1_048_576,
            r.n_thinking_rows == 64,
    {
        TabDptConfig {
            dim: 512,
            n_layers: 32,
            n_heads: 8,
            ff_dim: 512,
            y_encoder_dim: 128,
            max_num_classes: 16,
            regression_bin_count: 2048,
            regression_bin_min: 0xc120_0000,
            regression_bin_max: 0x4120_0000,
            max_num_features: 128,
            base_len: 64,
            max_len: 1_048_576,
            n_thinking_rows: 64,
        }
    }

    /// What the attention temperature is computed from: the head width and the two context
    /// lengths. There is nothing to scale where the lengths agree.
    pub fn kappa_terms(&self) -> (r: Option<(usize, usize, usize)>)
        requires
            self.base_len != self.max_len ==> self.n_heads > 0,
        ensures
            r == (if self.base_len == self.max_len {
                None
            } else {
                Some(((self.dim / self.n_heads) as usize, self.max_len, self.base_len))
            }),
    {
        if self.base_len == self.max_len {
            None
        } else {
            Some((self.dim / self.n_heads, self.max_len, self.base_len))
        }
    }

    /// Width of the head's output.
    pub fn head_width(&self) -> (r: usize)
        requires
            self.max_num_classes + self.regression_bin_count <= usize::MAX,
        ensures
            r == self.max_num_classes + self.regression_bin_count,
    {
        self.max_num_classes + self.regression_bin_count
    }

    /// The rows that are attended to: those that the model brings, and the training rows.
    pub fn context_len(&self, train_rows: usize) -> (r: usize)
        requires
            self.n_thinking_rows + train_rows <= usize::MAX,
        ensures
            r == self.n_thinking_rows + train_rows,
    {
        self.n_thinking_rows + train_rows
    }

    /// The context that the attention temperature counts: at most the longest.
    pub fn counted_len(&self, ctx_len: usize) -> (r: usize)
        ensures
            r == (if ctx_len < self.max_len {
                ctx_len
            } else {
                self.max_len
            }),
    {
        if ctx_len < self.max_len {
            ctx_len
        } else {
            self.max_len
        }
    }
}

/// Tensors that stand outside the blocks.
pub open spec fn top_level(name: Seq<char>) -> Option<Seq<char>> {
    if name == "encoder.weight"@ {
        Some("encoder.weight"@)
    } else if name == "encoder.bias"@ {
        Some("encoder.bias"@)
    } else if name == "head.0.weight"@ {
        Some("head_fc1.weight"@)
    } else if name == "head.0.bias"@ {
        Some("head_fc1.bias"@)
    } else if name == "head.2.weight"@ {
        Some("head_fc2.weight"@)
    } else if name == "head.2.bias"@ {
        Some("head_fc2.bias"@)
    } else if name == "thinking_embed"@ {
        Some("thinking_embed"@)
    } else {
        None
    }
}

/// Tensors of one transformer block. The constants `kappa`, `max_len_f` and `n0` have none.
pub open spec fn block_leaf(leaf: Seq<char>) -> Option<Seq<char>> {
    if leaf == "attn_norm.weight"@ {
        Some("attn_norm.weight"@)
    } else if leaf == "attn_norm.bias"@ {
        Some("attn_norm.bias"@)
    } else if leaf == "ff_norm.weight"@ {
        Some("ff_norm.weight"@)
    } else if leaf == "ff_norm.bias"@ {
        Some("ff_norm.bias"@)
    } else if leaf == "q_proj.weight"@ {
        Some("q_proj.weight"@)
    } else if leaf == "k_proj.weight"@ {
        Some("k_proj.weight"@)
    } else if leaf == "v_proj.weight"@ {
        Some("v_proj.weight"@)
    } else if leaf == "out_proj.weight"@ {
        Some("out_proj.weight"@)
    } else if leaf == "q_gate.weight"@ {
        Some("q_gate.weight"@)
    } else if leaf == "q_norm.weight"@ {
        Some("q_norm.weight"@)
    } else if leaf == "k_norm.weight"@ {
        Some("k_norm.weight"@)
    } else if leaf == "ff.up.weight"@ {
        Some("ff_up.weight"@)
    } else if leaf == "ff.down.weight"@ {
        Some("ff_down.weight"@)
    } else {
        None
    }
}

/// Tensors of one target encoder.
pub open spec fn y_encoder_leaf(leaf: Seq<char>) -> Option<Seq<char>> {
    if leaf == "0.weight"@ {
        Some("fc1.weight"@)
    } else if leaf == "0.bias"@ {
        Some("fc1.bias"@)
    } else if leaf == "2.weight"@ {
        Some("fc2.weight"@)
    } else if leaf == "2.bias"@ {
        Some("fc2.bias"@)
    } else {
        None
    }
}

/// The GGUF name of a numbered tensor.
pub open spec fn numbered_leaf(
    rest: Seq<char>,
    prefix: Seq<char>,
    leaf_of: spec_fn(Seq<char>) -> Option<Seq<char>>,
) -> Option<Seq<char>> {
    match names::numbered(rest, u32::MAX as nat) {
        Some((n, leaf)) => names::numbered_name(prefix, n, leaf_of(leaf)),
        None => None,
    }
}

/// The GGUF name of a checkpoint's tensor, if it has one.
pub open spec fn mapped_name(name: Seq<char>) -> Option<Seq<char>> {
    if top_level(name) is Some {
        top_level(name)
    } else if text::has_prefix(name, "transformer_encoder."@) {
        numbered_leaf(
            text::without_prefix(name, "transformer_encoder."@),
            "blk."@,
            |leaf: Seq<char>| block_leaf(leaf),
        )
    } else if text::has_prefix(name, "y_encoders."@) {
        numbered_leaf(
            text::without_prefix(name, "y_encoders."@),
            "y_enc."@,
            |leaf: Seq<char>| y_encoder_leaf(leaf),
        )
    } else {
        None
    }
}

/// Maps a tensor that stands outside the blocks.
fn map_top_level(name: &str) -> (r: Option<&'static str>)
    ensures
        names::held_str(r) == top_level(name@),
{
    if text::same(name, "encoder.weight") {
        Some("encoder.weight")
    } else if text::same(name, "encoder.bias") {
        Some("encoder.bias")
    } else if text::same(name, "head.0.weight") {
        Some("head_fc1.weight")
    } else if text::same(name, "head.0.bias") {
        Some("head_fc1.bias")
    } else if text::same(name, "head.2.weight") {
        Some("head_fc2.weight")
    } else if text::same(name, "head.2.bias") {
        Some("head_fc2.bias")
    } else if text::same(name, "thinking_embed") {
        Some("thinking_embed")
    } else {
        None
    }
}

/// Maps a tensor of one transformer block.
fn map_block_leaf(leaf: &str) -> (r: Option<&'static str>)
    ensures
        names::held_str(r) == block_leaf(leaf@),
{
    if text::same(leaf, "attn_norm.weight") {
        Some("attn_norm.weight")
    } else if text::same(leaf, "attn_norm.bias") {
        Some("attn_norm.bias")
    } else if text::same(leaf, "ff_norm.weight") {
        Some("ff_norm.weight")
    } else if text::same(leaf, "ff_norm.bias") {
        Some("ff_norm.bias")
    } else if text::same(leaf, "q_proj.weight") {
        Some("q_proj.weight")
    } else if text::same(leaf, "k_proj.weight") {
        Some("k_proj.weight")
    } else if text::same(leaf, "v_proj.weight") {
        Some("v_proj.weight")
    } else if text::same(leaf, "out_proj.weight") {
        Some("out_proj.weight")
    } else if text::same(leaf, "q_gate.weight") {
        Some("q_gate.weight")
    } else if text::same(leaf, "q_norm.weight") {
        Some("q_norm.weight")
    } else if text::same(leaf, "k_norm.weight") {
        Some("k_norm.weight")
    } else if text::same(leaf, "ff.up.weight") {
        Some("ff_up.weight")
    } else if text::same(leaf, "ff.down.weight") {
        Some("ff_down.weight")
    } else {
        None
    }
}

/// Maps a tensor of one target encoder.
fn map_y_encoder_leaf(leaf: &str) -> (r: Option<&'static str>)
    ensures
        names::held_str(r) == y_encoder_leaf(leaf@),
{
    if text::same(leaf, "0.weight") {
        Some("fc1.weight")
    } else if text::same(leaf, "0.bias") {
        Some("fc1.bias")
    } else if text::same(leaf, "2.weight") {
        Some("fc2.weight")
    } else if text::same(leaf, "2.bias") {
        Some("fc2.bias")
    } else {
        None
    }
}

/// Maps a checkpoint's tensor name to its GGUF name.
pub fn map_tensor_name(name: &str) -> (r: Option<String>)
    ensures
        names::held(r) == mapped_name(name@),
{
    if let Some(mapped) = map_top_level(name) {
        return Some(mapped.to_owned());
    }
    if let Some(rest) = text::strip_prefix(name, "transformer_encoder.") {
        return match names::split_number(rest, u32::MAX as u64) {
            Some((n, leaf)) => names::join_numbered_leaf("blk.", n, map_block_leaf(leaf)),
            None => None,
        };
    }
    if let Some(rest) = text::strip_prefix(name, "y_encoders.") {
        return match names::split_number(rest, u32::MAX as u64) {
            Some((n, leaf)) => names::join_numbered_leaf("y_enc.", n, map_y_encoder_leaf(leaf)),
            None => None,
        };
    }
    None
}

/// The constants that every layer repeats have no GGUF name, whatever the layer.
pub proof fn law_constants_skipped(n: nat)
    requires
        n <= u32::MAX,
    ensures
        mapped_name("transformer_encoder."@ + (text::decimal(n) + "."@ + "kappa"@)) is None,
        mapped_name("transformer_encoder."@ + (text::decimal(n) + "."@ + "max_len_f"@)) is None,
        mapped_name("transformer_encoder."@ + (text::decimal(n) + "."@ + "n0"@)) is None,
{
    lemma_block_name(n, "kappa"@);
    lemma_block_name(n, "max_len_f"@);
    lemma_block_name(n, "n0"@);
    reveal_strlit("kappa");
    reveal_strlit("max_len_f");
    reveal_strlit("n0");
    assert("kappa"@.len() == 5);
    assert("max_len_f"@.len() == 9);
    assert("n0"@.len() == 2);
    reveal_strlit("attn_norm.weight");
    assert("attn_norm.weight"@.len() == 16);
    reveal_strlit("attn_norm.bias");
    assert("attn_norm.bias"@.len() == 14);
    reveal_strlit("ff_norm.weight");
    assert("ff_norm.weight"@.len() == 14);
    reveal_strlit("ff_norm.bias");
    assert("ff_norm.bias"@.len() == 12);
    reveal_strlit("q_proj.weight");
    assert("q_proj.weight"@.len() == 13);
    reveal_strlit("k_proj.weight");
    assert("k_proj.weight"@.len() == 13);
    reveal_strlit("v_proj.weight");
    assert("v_proj.weight"@.len() == 13);
    reveal_strlit("out_proj.weight");
    assert("out_proj.weight"@.len() == 15);
    reveal_strlit("q_gate.weight");
    assert("q_gate.weight"@.len() == 13);
    reveal_strlit("q_norm.weight");
    assert("q_norm.weight"@.len() == 13);
    reveal_strlit("k_norm.weight");
    assert("k_norm.weight"@.len() == 13);
    reveal_strlit("ff.up.weight");
    assert("ff.up.weight"@.len() == 12);
    reveal_strlit("ff.down.weight");
    assert("ff.down.weight"@.len() == 14);
}

/// Block numbers are kept: tensor `leaf` of block `n` maps to the mapped leaf of block `n`.
pub proof fn law_blocks_keep_numbers(n: nat, leaf: Seq<char>)
    requires
        n <= u32::MAX,
    ensures
        mapped_name("transformer_encoder."@ + (text::decimal(n) + "."@ + leaf)) == names::numbered_name(
            "blk."@,
            n,
            block_leaf(leaf),
        ),
{
    lemma_block_name(n, leaf);
}

proof fn lemma_block_name(n: nat, leaf: Seq<char>)
    requires
        n <= u32::MAX,
    ensures
        mapped_name("transformer_encoder."@ + (text::decimal(n) + "."@ + leaf)) == names::numbered_name(
            "blk."@,
            n,
            block_leaf(leaf),
        ),
{
    let rest = text::decimal(n) + "."@ + leaf;
    let name = "transformer_encoder."@ + rest;
    names::lemma_prefix_removed("transformer_encoder."@, rest);
    names::law_numbered_reads_back(n, leaf, u32::MAX as nat);
    reveal_strlit("transformer_encoder.");
    assert(name[0] == 't');
    assert(name[1] == 'r');
    reveal_strlit("encoder.weight");
    assert("encoder.weight"@[0] == 'e');
    reveal_strlit("encoder.bias");
    assert("encoder.bias"@[0] == 'e');
    reveal_strlit("head.0.weight");
    assert("head.0.weight"@[0] == 'h');
    reveal_strlit("head.0.bias");
    assert("head.0.bias"@[0] == 'h');
    reveal_strlit("head.2.weight");
    assert("head.2.weight"@[0] == 'h');
    reveal_strlit("head.2.bias");
    assert("head.2.bias"@[0] == 'h');
    reveal_strlit("thinking_embed");
    assert("thinking_embed"@[1] == 'h');
}

/// Different names outside the blocks have different names.
proof fn lemma_top_level_apart(a: Seq<char>, b: Seq<char>)
    requires
        top_level(a) is Some,
        top_level(a) == top_level(b),
    ensures
        a == b,
{
    reveal_strlit("encoder.weight");
    reveal_strlit("encoder.bias");
    reveal_strlit("head_fc1.weight");
    reveal_strlit("head_fc1.bias");
    reveal_strlit("head_fc2.weight");
    reveal_strlit("head_fc2.bias");
    reveal_strlit("thinking_embed");
    assert("encoder.weight"@.len() == 14 && "encoder.weight"@[7] == '.');
    assert("encoder.bias"@.len() == 12 && "encoder.bias"@[7] == '.');
    assert("head_fc1.weight"@.len() == 15 && "head_fc1.weight"@[7] == '1');
    assert("head_fc1.bias"@.len() == 13 && "head_fc1.bias"@[7] == '1');
    assert("head_fc2.weight"@.len() == 15 && "head_fc2.weight"@[7] == '2');
    assert("head_fc2.bias"@.len() == 13 && "head_fc2.bias"@[7] == '2');
    assert("thinking_embed"@.len() == 14 && "thinking_embed"@[7] == 'g');
    let g = top_level(a)->0;
    assert(g[7] == top_level(b)->0[7]);
}

/// Different leaves of a block have different names.
proof fn lemma_block_leaf_apart(a: Seq<char>, b: Seq<char>)
    requires
        block_leaf(a) is Some,
        block_leaf(a) == block_leaf(b),
    ensures
        a == b,
{
    reveal_strlit("attn_norm.weight");
    reveal_strlit("attn_norm.bias");
    reveal_strlit("ff_norm.weight");
    reveal_strlit("ff_norm.bias");
    reveal_strlit("q_proj.weight");
    reveal_strlit("k_proj.weight");
    reveal_strlit("v_proj.weight");
    reveal_strlit("out_proj.weight");
    reveal_strlit("q_gate.weight");
    reveal_strlit("q_norm.weight");
    reveal_strlit("k_norm.weight");
    reveal_strlit("ff_up.weight");
    reveal_strlit("ff_down.weight");
    assert("attn_norm.weight"@.len() == 16 && "attn_norm.weight"@[0] == 'a' && "attn_norm.weight"@[3] == 'n');
    assert("attn_norm.bias"@.len() == 14 && "attn_norm.bias"@[0] == 'a' && "attn_norm.bias"@[3] == 'n');
    assert("ff_norm.weight"@.len() == 14 && "ff_norm.weight"@[0] == 'f' && "ff_norm.weight"@[3] == 'n');
    assert("ff_norm.bias"@.len() == 12 && "ff_norm.bias"@[0] == 'f' && "ff_norm.bias"@[3] == 'n');
    assert("q_proj.weight"@.len() == 13 && "q_proj.weight"@[0] == 'q' && "q_proj.weight"@[3] == 'r');
    assert("k_proj.weight"@.len() == 13 && "k_proj.weight"@[0] == 'k' && "k_proj.weight"@[3] == 'r');
    assert("v_proj.weight"@.len() == 13 && "v_proj.weight"@[0] == 'v' && "v_proj.weight"@[3] == 'r');
    assert("out_proj.weight"@.len() == 15 && "out_proj.weight"@[0] == 'o' && "out_proj.weight"@[3] == '_');
    assert("q_gate.weight"@.len() == 13 && "q_gate.weight"@[0] == 'q' && "q_gate.weight"@[3] == 'a');
    assert("q_norm.weight"@.len() == 13 && "q_norm.weight"@[0] == 'q' && "q_norm.weight"@[3] == 'o');
    assert("k_norm.weight"@.len() == 13 && "k_norm.weight"@[0] == 'k' && "k_norm.weight"@[3] == 'o');
    assert("ff_up.weight"@.len() == 12 && "ff_up.weight"@[0] == 'f' && "ff_up.weight"@[3] == 'u');
    assert("ff_down.weight"@.len() == 14 && "ff_down.weight"@[0] == 'f' && "ff_down.weight"@[3] == 'd');
    let g = block_leaf(a)->0;
    assert(g[0] == block_leaf(b)->0[0] && g[3] == block_leaf(b)->0[3]);
}

/// Different leaves of a target encoder have different names.
proof fn lemma_y_encoder_leaf_apart(a: Seq<char>, b: Seq<char>)
    requires
        y_encoder_leaf(a) is Some,
        y_encoder_leaf(a) == y_encoder_leaf(b),
    ensures
        a == b,
{
    reveal_strlit("fc1.weight");
    reveal_strlit("fc1.bias");
    reveal_strlit("fc2.weight");
    reveal_strlit("fc2.bias");
    assert("fc1.weight"@.len() == 10 && "fc1.weight"@[2] == '1');
    assert("fc1.bias"@.len() == 8 && "fc1.bias"@[2] == '1');
    assert("fc2.weight"@.len() == 10 && "fc2.weight"@[2] == '2');
    assert("fc2.bias"@.len() == 8 && "fc2.bias"@[2] == '2');
    let g = y_encoder_leaf(a)->0;
    assert(g[2] == y_encoder_leaf(b)->0[2]);
}

/// No name outside the blocks and target encoders starts as theirs do.
proof fn lemma_top_level_starts(a: Seq<char>)
    requires
        top_level(a) is Some,
    ensures
        top_level(a)->0.len() > 0,
        top_level(a)->0[0] != 'b',
        top_level(a)->0[0] != 'y',
{
    reveal_strlit("encoder.weight");
    reveal_strlit("encoder.bias");
    reveal_strlit("head_fc1.weight");
    reveal_strlit("head_fc1.bias");
    reveal_strlit("head_fc2.weight");
    reveal_strlit("head_fc2.bias");
    reveal_strlit("thinking_embed");
}

/// Different tensors keep different names, where the blocks' and encoders' numbers are written as their decimals.
pub proof fn law_names_kept_apart(a: Seq<char>, b: Seq<char>)
    requires
        names::canonical(a, u32::MAX as nat),
        names::canonical(b, u32::MAX as nat),
        mapped_name(a) is Some,
        mapped_name(b) is Some,
        a != b,
    ensures
        mapped_name(a) != mapped_name(b),
{
    reveal_strlit("blk.");
    reveal_strlit("y_enc.");
    reveal_strlit("transformer_encoder.");
    reveal_strlit("y_encoders.");
    if mapped_name(a) == mapped_name(b) {
        let g = mapped_name(a)->0;
        assert(g[0] == mapped_name(b)->0[0]);
        if top_level(a) is Some {
            lemma_top_level_starts(a);
            if top_level(b) is Some {
                lemma_top_level_apart(a, b);
            }
        } else if top_level(b) is Some {
            lemma_top_level_starts(b);
        } else if text::has_prefix(a, "transformer_encoder."@) && text::has_prefix(b, "transformer_encoder."@) {
            let (_n, la) = names::numbered(text::without_prefix(a, "transformer_encoder."@), u32::MAX as nat)->0;
            let (_m, lb) = names::numbered(text::without_prefix(b, "transformer_encoder."@), u32::MAX as nat)->0;
            if block_leaf(la) == block_leaf(lb) {
                lemma_block_leaf_apart(la, lb);
            }
            names::lemma_numbered_same(
                a,
                b,
                "transformer_encoder."@,
                u32::MAX as nat,
                "blk."@,
                block_leaf(la)->0,
                block_leaf(lb)->0,
            );
        } else if !text::has_prefix(a, "transformer_encoder."@) && !text::has_prefix(b, "transformer_encoder."@) {
            let (_n, la) = names::numbered(text::without_prefix(a, "y_encoders."@), u32::MAX as nat)->0;
            let (_m, lb) = names::numbered(text::without_prefix(b, "y_encoders."@), u32::MAX as nat)->0;
            if y_encoder_leaf(la) == y_encoder_leaf(lb) {
                lemma_y_encoder_leaf_apart(la, lb);
            }
            names::lemma_numbered_same(
                a,
                b,
                "y_encoders."@,
                u32::MAX as nat,
                "y_enc."@,
                y_encoder_leaf(la)->0,
                y_encoder_leaf(lb)->0,
            );
        }
    }
}

/// The tensors outside the blocks, one by one.
proof fn lemma_top_level_listed()
    ensures
        top_level("encoder.weight"@) == Some("encoder.weight"@),
        top_level("encoder.bias"@) == Some("encoder.bias"@),
        top_level("head.0.weight"@) == Some("head_fc1.weight"@),
        top_level("head.0.bias"@) == Some("head_fc1.bias"@),
        top_level("head.2.weight"@) == Some("head_fc2.weight"@),
        top_level("head.2.bias"@) == Some("head_fc2.bias"@),
        top_level("thinking_embed"@) == Some("thinking_embed"@),
{
    reveal_strlit("encoder.weight");
    reveal_strlit("encoder.bias");
    reveal_strlit("head.0.weight");
    reveal_strlit("head.0.bias");
    reveal_strlit("head.2.weight");
    reveal_strlit("head.2.bias");
    reveal_strlit("thinking_embed");
    assert("encoder.weight"@.len() == 14 && "encoder.weight"@[5] == 'e');
    assert("encoder.bias"@.len() == 12 && "encoder.bias"@[5] == 'e');
    assert("head.0.weight"@.len() == 13 && "head.0.weight"@[5] == '0');
    assert("head.0.bias"@.len() == 11 && "head.0.bias"@[5] == '0');
    assert("head.2.weight"@.len() == 13 && "head.2.weight"@[5] == '2');
    assert("head.2.bias"@.len() == 11 && "head.2.bias"@[5] == '2');
    assert("thinking_embed"@.len() == 14 && "thinking_embed"@[5] == 'i');
}

/// The tensors of a block, one by one.
proof fn lemma_block_leaves_listed()
    ensures
        block_leaf("attn_norm.weight"@) == Some("attn_norm.weight"@),
        block_leaf("attn_norm.bias"@) == Some("attn_norm.bias"@),
        block_leaf("ff_norm.weight"@) == Some("ff_norm.weight"@),
        block_leaf("ff_norm.bias"@) == Some("ff_norm.bias"@),
        block_leaf("q_proj.weight"@) == Some("q_proj.weight"@),
        block_leaf("k_proj.weight"@) == Some("k_proj.weight"@),
        block_leaf("v_proj.weight"@) == Some("v_proj.weight"@),
        block_leaf("out_proj.weight"@) == Some("out_proj.weight"@),
        block_leaf("q_gate.weight"@) == Some("q_gate.weight"@),
        block_leaf("q_norm.weight"@) == Some("q_norm.weight"@),
        block_leaf("k_norm.weight"@) == Some("k_norm.weight"@),
        block_leaf("ff.up.weight"@) == Some("ff_up.weight"@),
        block_leaf("ff.down.weight"@) == Some("ff_down.weight"@),
{
    reveal_strlit("attn_norm.weight");
    reveal_strlit("attn_norm.bias");
    reveal_strlit("ff_norm.weight");
    reveal_strlit("ff_norm.bias");
    reveal_strlit("q_proj.weight");
    reveal_strlit("k_proj.weight");
    reveal_strlit("v_proj.weight");
    reveal_strlit("out_proj.weight");
    reveal_strlit("q_gate.weight");
    reveal_strlit("q_norm.weight");
    reveal_strlit("k_norm.weight");
    reveal_strlit("ff.up.weight");
    reveal_strlit("ff.down.weight");
    assert("attn_norm.weight"@.len() == 16 && "attn_norm.weight"@[0] == 'a' && "attn_norm.weight"@[2] == 't');
    assert("attn_norm.bias"@.len() == 14 && "attn_norm.bias"@[0] == 'a' && "attn_norm.bias"@[2] == 't');
    assert("ff_norm.weight"@.len() == 14 && "ff_norm.weight"@[0] == 'f' && "ff_norm.weight"@[2] == '_');
    assert("ff_norm.bias"@.len() == 12 && "ff_norm.bias"@[0] == 'f' && "ff_norm.bias"@[2] == '_');
    assert("q_proj.weight"@.len() == 13 && "q_proj.weight"@[0] == 'q' && "q_proj.weight"@[2] == 'p');
    assert("k_proj.weight"@.len() == 13 && "k_proj.weight"@[0] == 'k' && "k_proj.weight"@[2] == 'p');
    assert("v_proj.weight"@.len() == 13 && "v_proj.weight"@[0] == 'v' && "v_proj.weight"@[2] == 'p');
    assert("out_proj.weight"@.len() == 15 && "out_proj.weight"@[0] == 'o' && "out_proj.weight"@[2] == 't');
    assert("q_gate.weight"@.len() == 13 && "q_gate.weight"@[0] == 'q' && "q_gate.weight"@[2] == 'g');
    assert("q_norm.weight"@.len() == 13 && "q_norm.weight"@[0] == 'q' && "q_norm.weight"@[2] == 'n');
    assert("k_norm.weight"@.len() == 13 && "k_norm.weight"@[0] == 'k' && "k_norm.weight"@[2] == 'n');
    assert("ff.up.weight"@.len() == 12 && "ff.up.weight"@[0] == 'f' && "ff.up.weight"@[2] == '.');
    assert("ff.down.weight"@.len() == 14 && "ff.down.weight"@[0] == 'f' && "ff.down.weight"@[2] == '.');
}

/// The tensors of a target encoder, one by one.
proof fn lemma_y_encoder_leaves_listed()
    ensures
        y_encoder_leaf("0.weight"@) == Some("fc1.weight"@),
        y_encoder_leaf("0.bias"@) == Some("fc1.bias"@),
        y_encoder_leaf("2.weight"@) == Some("fc2.weight"@),
        y_encoder_leaf("2.bias"@) == Some("fc2.bias"@),
{
    reveal_strlit("0.weight");
    reveal_strlit("0.bias");
    reveal_strlit("2.weight");
    reveal_strlit("2.bias");
    assert("0.weight"@.len() == 8 && "0.weight"@[0] == '0');
    assert("0.bias"@.len() == 6 && "0.bias"@[0] == '0');
    assert("2.weight"@.len() == 8 && "2.weight"@[0] == '2');
    assert("2.bias"@.len() == 6 && "2.bias"@[0] == '2');
}

/// Encoder numbers are kept: tensor `leaf` of target encoder `n` maps to the mapped leaf of encoder `n`.
pub proof fn law_y_encoders_keep_numbers(n: nat, leaf: Seq<char>)
    requires
        n <= u32::MAX,
    ensures
        mapped_name("y_encoders."@ + (text::decimal(n) + "."@ + leaf)) == names::numbered_name(
            "y_enc."@,
            n,
            y_encoder_leaf(leaf),
        ),
{
    let rest = text::decimal(n) + "."@ + leaf;
    names::lemma_prefix_removed("y_encoders."@, rest);
    names::law_numbered_reads_back(n, leaf, u32::MAX as nat);
    reveal_strlit("y_encoders.");
    reveal_strlit("transformer_encoder.");
    names::lemma_other_prefix("y_encoders."@, rest, "transformer_encoder."@, 0);
    reveal_strlit("encoder.weight");
    names::lemma_other_prefix("y_encoders."@, rest, "encoder.weight"@, 0);
    reveal_strlit("encoder.bias");
    names::lemma_other_prefix("y_encoders."@, rest, "encoder.bias"@, 0);
    reveal_strlit("head.0.weight");
    names::lemma_other_prefix("y_encoders."@, rest, "head.0.weight"@, 0);
    reveal_strlit("head.0.bias");
    names::lemma_other_prefix("y_encoders."@, rest, "head.0.bias"@, 0);
    reveal_strlit("head.2.weight");
    names::lemma_other_prefix("y_encoders."@, rest, "head.2.weight"@, 0);
    reveal_strlit("head.2.bias");
    names::lemma_other_prefix("y_encoders."@, rest, "head.2.bias"@, 0);
    reveal_strlit("thinking_embed");
    names::lemma_other_prefix("y_encoders."@, rest, "thinking_embed"@, 0);
}

/// What the tensors outside the blocks are named.
pub proof fn law_top_level_names()
    ensures
        mapped_name("encoder.weight"@) == Some("encoder.weight"@),
        mapped_name("encoder.bias"@) == Some("encoder.bias"@),
        mapped_name("head.0.weight"@) == Some("head_fc1.weight"@),
        mapped_name("head.0.bias"@) == Some("head_fc1.bias"@),
        mapped_name("head.2.weight"@) == Some("head_fc2.weight"@),
        mapped_name("head.2.bias"@) == Some("head_fc2.bias"@),
        mapped_name("thinking_embed"@) == Some("thinking_embed"@),
{
    lemma_top_level_listed();
}

/// What the tensors of every block are named.
pub proof fn law_block_names(n: nat)
    requires
        n <= u32::MAX,
    ensures
        mapped_name("transformer_encoder."@ + (text::decimal(n) + "."@ + "attn_norm.weight"@)) == Some(
            "blk."@ + text::decimal(n) + "."@ + "attn_norm.weight"@,
        ),
        mapped_name("transformer_encoder."@ + (text::decimal(n) + "."@ + "attn_norm.bias"@)) == Some(
            "blk."@ + text::decimal(n) + "."@ + "attn_norm.bias"@,
        ),
        mapped_name("transformer_encoder."@ + (text::decimal(n) + "."@ + "ff_norm.weight"@)) == Some(
            "blk."@ + text::decimal(n) + "."@ + "ff_norm.weight"@,
        ),
        mapped_name("transformer_encoder."@ + (text::decimal(n) + "."@ + "ff_norm.bias"@)) == Some(
            "blk."@ + text::decimal(n) + "."@ + "ff_norm.bias"@,
        ),
        mapped_name("transformer_encoder."@ + (text::decimal(n) + "."@ + "q_proj.weight"@)) == Some(
            "blk."@ + text::decimal(n) + "."@ + "q_proj.weight"@,
        ),
        mapped_name("transformer_encoder."@ + (text::decimal(n) + "."@ + "k_proj.weight"@)) == Some(
            "blk."@ + text::decimal(n) + "."@ + "k_proj.weight"@,
        ),
        mapped_name("transformer_encoder."@ + (text::decimal(n) + "."@ + "v_proj.weight"@)) == Some(
            "blk."@ + text::decimal(n) + "."@ + "v_proj.weight"@,
        ),
        mapped_name("transformer_encoder."@ + (text::decimal(n) + "."@ + "out_proj.weight"@)) == Some(
            "blk."@ + text::decimal(n) + "."@ + "out_proj.weight"@,
        ),
        mapped_name("transformer_encoder."@ + (text::decimal(n) + "."@ + "q_gate.weight"@)) == Some(
            "blk."@ + text::decimal(n) + "."@ + "q_gate.weight"@,
        ),
        mapped_name("transformer_encoder."@ + (text::decimal(n) + "."@ + "q_norm.weight"@)) == Some(
            "blk."@ + text::decimal(n) + "."@ + "q_norm.weight"@,
        ),
        mapped_name("transformer_encoder."@ + (text::decimal(n) + "."@ + "k_norm.weight"@)) == Some(
            "blk."@ + text::decimal(n) + "."@ + "k_norm.weight"@,
        ),
        mapped_name("transformer_encoder."@ + (text::decimal(n) + "."@ + "ff.up.weight"@)) == Some(
            "blk."@ + text::decimal(n) + "."@ + "ff_up.weight"@,
        ),
        mapped_name("transformer_encoder."@ + (text::decimal(n) + "."@ + "ff.down.weight"@)) == Some(
            "blk."@ + text::decimal(n) + "."@ + "ff_down.weight"@,
        ),
{
    lemma_block_leaves_listed();
    law_blocks_keep_numbers(n, "attn_norm.weight"@);
    law_blocks_keep_numbers(n, "attn_norm.bias"@);
    law_blocks_keep_numbers(n, "ff_norm.weight"@);
    law_blocks_keep_numbers(n, "ff_norm.bias"@);
    law_blocks_keep_numbers(n, "q_proj.weight"@);
    law_blocks_keep_numbers(n, "k_proj.weight"@);
    law_blocks_keep_numbers(n, "v_proj.weight"@);
    law_blocks_keep_numbers(n, "out_proj.weight"@);
    law_blocks_keep_numbers(n, "q_gate.weight"@);
    law_blocks_keep_numbers(n, "q_norm.weight"@);
    law_blocks_keep_numbers(n, "k_norm.weight"@);
    law_blocks_keep_numbers(n, "ff.up.weight"@);
    law_blocks_keep_numbers(n, "ff.down.weight"@);
}

/// What the tensors of every target encoder are named.
pub proof fn law_y_encoder_names(n: nat)
    requires
        n <= u32::MAX,
    ensures
        mapped_name("y_encoders."@ + (text::decimal(n) + "."@ + "0.weight"@)) == Some(
            "y_enc."@ + text::decimal(n) + "."@ + "fc1.weight"@,
        ),
        mapped_name("y_encoders."@ + (text::decimal(n) + "."@ + "0.bias"@)) == Some(
            "y_enc."@ + text::decimal(n) + "."@ + "fc1.bias"@,
        ),
        mapped_name("y_encoders."@ + (text::decimal(n) + "."@ + "2.weight"@)) == Some(
            "y_enc."@ + text::decimal(n) + "."@ + "fc2.weight"@,
        ),
        mapped_name("y_encoders."@ + (text::decimal(n) + "."@ + "2.bias"@)) == Some(
            "y_enc."@ + text::decimal(n) + "."@ + "fc2.bias"@,
        ),
{
    lemma_y_encoder_leaves_listed();
    law_y_encoders_keep_numbers(n, "0.weight"@);
    law_y_encoders_keep_numbers(n, "0.bias"@);
    law_y_encoders_keep_numbers(n, "2.weight"@);
    law_y_encoders_keep_numbers(n, "2.bias"@);
}

/// No other tensor has a name.
pub proof fn law_nothing_else_is_named(name: Seq<char>)
    requires
        mapped_name(name) is Some,
    ensures
        ({
            ||| name == "encoder.weight"@
            ||| name == "encoder.bias"@
            ||| name == "head.0.weight"@
            ||| name == "head.0.bias"@
            ||| name == "head.2.weight"@
            ||| name == "head.2.bias"@
            ||| name == "thinking_embed"@
            ||| text::has_prefix(name, "transformer_encoder."@) && ({
                ||| text::has_suffix(name, "attn_norm.weight"@)
                ||| text::has_suffix(name, "attn_norm.bias"@)
                ||| text::has_suffix(name, "ff_norm.weight"@)
                ||| text::has_suffix(name, "ff_norm.bias"@)
                ||| text::has_suffix(name, "q_proj.weight"@)
                ||| text::has_suffix(name, "k_proj.weight"@)
                ||| text::has_suffix(name, "v_proj.weight"@)
                ||| text::has_suffix(name, "out_proj.weight"@)
                ||| text::has_suffix(name, "q_gate.weight"@)
                ||| text::has_suffix(name, "q_norm.weight"@)
                ||| text::has_suffix(name, "k_norm.weight"@)
                ||| text::has_suffix(name, "ff.up.weight"@)
                ||| text::has_suffix(name, "ff.down.weight"@)
            })
            ||| text::has_prefix(name, "y_encoders."@) && ({
                ||| text::has_suffix(name, "0.weight"@)
                ||| text::has_suffix(name, "0.bias"@)
                ||| text::has_suffix(name, "2.weight"@)
                ||| text::has_suffix(name, "2.bias"@)
            })
        }),
{
    if top_level(name) is None {
        if text::has_prefix(name, "transformer_encoder."@) {
            names::lemma_numbered_ends(name, "transformer_encoder."@, u32::MAX as nat);
            let (_n, leaf) = names::numbered(text::without_prefix(name, "transformer_encoder."@), u32::MAX as nat)->0;
            assert(block_leaf(leaf) is Some);
        } else {
            names::lemma_numbered_ends(name, "y_encoders."@, u32::MAX as nat);
            let (_n, leaf) = names::numbered(text::without_prefix(name, "y_encoders."@), u32::MAX as nat)->0;
            assert(y_encoder_leaf(leaf) is Some);
        }
    }
}

} // verus!
