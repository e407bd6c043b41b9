//! TinyTimeMixer: names of the checkpoint's tensors in a GGUF file.

use vstd::prelude::*;

use crate::models::names;
use crate::text;

verus! {

/// Tensors that stand outside the mixers.
pub open spec fn top_level(name: Seq<char>) -> Option<Seq<char>> {
    if name == "backbone.encoder.patcher.weight"@ {
        Some("enc.patcher.weight"@)
    } else if name == "backbone.encoder.patcher.bias"@ {
        Some("enc.patcher.bias"@)
    } else if name == "decoder.adapter.weight"@ {
        Some("dec.adapter.weight"@)
    } else if name == "decoder.adapter.bias"@ {
        Some("dec.adapter.bias"@)
    } else if name == "head.base_forecast_block.weight"@ {
        Some("head.weight"@)
    } else if name == "head.base_forecast_block.bias"@ {
        Some("head.bias"@)
    } else {
        None
    }
}

/// Tensors of one mixer layer.
pub open spec fn mixer_leaf(leaf: Seq<char>) -> Option<Seq<char>> {
    if leaf == "patch_mixer.norm.norm.weight"@ {
        Some("patch_norm.weight"@)
    } else if leaf == "patch_mixer.norm.norm.bias"@ {
        Some("patch_norm.bias"@)
    } else if leaf == "patch_mixer.mlp.fc1.weight"@ {
        Some("patch_fc1.weight"@)
    } else if leaf == "patch_mixer.mlp.fc1.bias"@ {
        Some("patch_fc1.bias"@)
    } else if leaf == "patch_mixer.mlp.fc2.weight"@ {
        Some("patch_fc2.weight"@)
    } else if leaf == "patch_mixer.mlp.fc2.bias"@ {
        Some("patch_fc2.bias"@)
    } else if leaf == "patch_mixer.gating_block.attn_layer.weight"@ {
        Some("patch_gate.weight"@)
    } else if leaf == "patch_mixer.gating_block.attn_layer.bias"@ {
        Some("patch_gate.bias"@)
    } else if leaf == "feature_mixer.norm.norm.weight"@ {
        Some("feat_norm.weight"@)
    } else if leaf == "feature_mixer.norm.norm.bias"@ {
        Some("feat_norm.bias"@)
    } else if leaf == "feature_mixer.mlp.fc1.weight"@ {
        Some("feat_fc1.weight"@)
    } else if leaf == "feature_mixer.mlp.fc1.bias"@ {
        Some("feat_fc1.bias"@)
    } else if leaf == "feature_mixer.mlp.fc2.weight"@ {
        Some("feat_fc2.weight"@)
    } else if leaf == "feature_mixer.mlp.fc2.bias"@ {
        Some("feat_fc2.bias"@)
    } else if leaf == "feature_mixer.gating_block.attn_layer.weight"@ {
        Some("feat_gate.weight"@)
    } else if leaf == "feature_mixer.gating_block.attn_layer.bias"@ {
        Some("feat_gate.bias"@)
    } else {
        None
    }
}

/// The GGUF name of `{level}.mixer_layers.{layer}.leaf`.
pub open spec fn mixer_layer_name(rest: Seq<char>, prefix: Seq<char>) -> Option<Seq<char>> {
    match names::numbered(rest, u32::MAX as nat) {
        Some((level, tail)) => if text::has_prefix(tail, "mixer_layers."@) {
            match names::numbered(text::without_prefix(tail, "mixer_layers."@), u32::MAX as nat) {
                Some((layer, leaf)) => match mixer_leaf(leaf) {
                    Some(l) => Some(
                        prefix + "."@ + text::decimal(level) + ".layer."@ + text::decimal(layer) + "."@ + l,
                    ),
                    None => None,
                },
                None => None,
            }
        } else {
            None
        },
        None => None,
    }
}

/// The GGUF name of `{n}.leaf` in the decoder.
pub open spec fn decoder_layer_name(rest: Seq<char>) -> Option<Seq<char>> {
    match names::numbered(rest, u32::MAX as nat) {
        Some((n, leaf)) => names::numbered_name("dec.blk."@, n, mixer_leaf(leaf)),
        None => None,
    }
}

/// The GGUF name of a checkpoint's tensor, if it has one.
pub open spec fn mapped_name(name: Seq<char>) -> Option<Seq<char>> {
    if top_level(name) is Some {
        top_level(name)
    } else if text::has_prefix(name, "backbone.encoder.mlp_mixer_encoder.mixers."@) {
        mixer_layer_name(text::without_prefix(name, "backbone.encoder.mlp_mixer_encoder.mixers."@), "enc.blk"@)
    } else if text::has_prefix(name, "decoder.decoder_block.mixers."@) {
        decoder_layer_name(text::without_prefix(name, "decoder.decoder_block.mixers."@))
    } else {
        None
    }
}

/// Maps a tensor that stands outside the mixers.
fn map_top_level(name: &str) -> (r: Option<&'static str>)
    ensures
        names::held_str(r) == top_level(name@),
{
    if text::same(name, "backbone.encoder.patcher.weight") {
        Some("enc.patcher.weight")
    } else if text::same(name, "backbone.encoder.patcher.bias") {
        Some("enc.patcher.bias")
    } else if text::same(name, "decoder.adapter.weight") {
        Some("dec.adapter.weight")
    } else if text::same(name, "decoder.adapter.bias") {
        Some("dec.adapter.bias")
    } else if text::same(name, "head.base_forecast_block.weight") {
        Some("head.weight")
    } else if text::same(name, "head.base_forecast_block.bias") {
        Some("head.bias")
    } else {
        None
    }
}

/// Maps a tensor of one mixer layer.
fn map_mixer_suffix(suffix: &str) -> (r: Option<&'static str>)
    ensures
        names::held_str(r) == mixer_leaf(suffix@),
{
    if text::same(suffix, "patch_mixer.norm.norm.weight") {
        Some("patch_norm.weight")
    } else if text::same(suffix, "patch_mixer.norm.norm.bias") {
        Some("patch_norm.bias")
    } else if text::same(suffix, "patch_mixer.mlp.fc1.weight") {
        Some("patch_fc1.weight")
    } else if text::same(suffix, "patch_mixer.mlp.fc1.bias") {
        Some("patch_fc1.bias")
    } else if text::same(suffix, "patch_mixer.mlp.fc2.weight") {
        Some("patch_fc2.weight")
    } else if text::same(suffix, "patch_mixer.mlp.fc2.bias") {
        Some("patch_fc2.bias")
    } else if text::same(suffix, "patch_mixer.gating_block.attn_layer.weight") {
        Some("patch_gate.weight")
    } else if text::same(suffix, "patch_mixer.gating_block.attn_layer.bias") {
        Some("patch_gate.bias")
    } else if text::same(suffix, "feature_mixer.norm.norm.weight") {
        Some("feat_norm.weight")
    } else if text::same(suffix, "feature_mixer.norm.norm.bias") {
        Some("feat_norm.bias")
    } else if text::same(suffix, "feature_mixer.mlp.fc1.weight") {
        Some("feat_fc1.weight")
    } else if text::same(suffix, "feature_mixer.mlp.fc1.bias") {
        Some("feat_fc1.bias")
    } else if text::same(suffix, "feature_mixer.mlp.fc2.weight") {
        Some("feat_fc2.weight")
    } else if text::same(suffix, "feature_mixer.mlp.fc2.bias") {
        Some("feat_fc2.bias")
    } else if text::same(suffix, "feature_mixer.gating_block.attn_layer.weight") {
        Some("feat_gate.weight")
    } else if text::same(suffix, "feature_mixer.gating_block.attn_layer.bias") {
        Some("feat_gate.bias")
    } else {
        None
    }
}

/// Maps `{level}.mixer_layers.{layer}.leaf`.
fn map_mixer_layer(rest: &str, prefix: &str) -> (r: Option<String>)
    ensures
        names::held(r) == mixer_layer_name(rest@, prefix@),
{
    let (level, tail) = match names::split_number(rest, u32::MAX as u64) {
        Some(p) => p,
        None => return None,
    };
    let inner: &str = match text::strip_prefix(tail, "mixer_layers.") {
        Some(t) => t,
        None => return None,
    };
    let (layer, leaf) = match names::split_number(inner, u32::MAX as u64) {
        Some(p) => p,
        None => return None,
    };
    match map_mixer_suffix(leaf) {
        Some(suffix) => {
            let mut out = String::new();
            out.append(prefix);
            out.append(".");
            text::push_decimal(&mut out, level);
            out.append(".layer.");
            text::push_decimal(&mut out, layer);
            out.append(".");
            out.append(suffix);
            assert(out@ =~= prefix@ + "."@ + text::decimal(level as nat) + ".layer."@ + text::decimal(
                layer as nat,
            ) + "."@ + suffix@);
            Some(out)
        },
        None => None,
    }
}

/// Maps `{n}.leaf` of the decoder.
fn map_decoder_mixer_layer(rest: &str) -> (r: Option<String>)
    ensures
        names::held(r) == decoder_layer_name(rest@),
{
    match names::split_number(rest, u32::MAX as u64) {
        Some((n, leaf)) => names::join_numbered_leaf("dec.blk.", n, map_mixer_suffix(leaf)),
        None => None,
    }
}

/// Maps a checkpoint's tensor name to its GGUF name.
pub fn map_tensor_name(hf_name: &str) -> (r: Option<String>)
    ensures
        names::held(r) == mapped_name(hf_name@),
{
    if let Some(mapped) = map_top_level(hf_name) {
        return Some(mapped.to_owned());
    }
    if let Some(rest) = text::strip_prefix(hf_name, "backbone.encoder.mlp_mixer_encoder.mixers.") {
        return map_mixer_layer(rest, "enc.blk");
    }
    if let Some(rest) = text::strip_prefix(hf_name, "decoder.decoder_block.mixers.") {
        return map_decoder_mixer_layer(rest);
    }
    None
}

/// Level and layer numbers are kept.
pub proof fn law_mixers_keep_numbers(level: nat, layer: nat, leaf: Seq<char>, prefix: Seq<char>)
    requires
        level <= u32::MAX,
        layer <= u32::MAX,
        mixer_leaf(leaf) is Some,
    ensures
        mixer_layer_name(
            text::decimal(level) + "."@ + ("mixer_layers."@ + (text::decimal(layer) + "."@ + leaf)),
            prefix,
        ) == Some(
            prefix + "."@ + text::decimal(level) + ".layer."@ + text::decimal(layer) + "."@ + mixer_leaf(leaf)->0,
        ),
{
    let inner = text::decimal(layer) + "."@ + leaf;
    names::law_numbered_reads_back(layer, leaf, u32::MAX as nat);
    names::lemma_prefix_removed("mixer_layers."@, inner);
    names::law_numbered_reads_back(level, "mixer_layers."@ + inner, u32::MAX as nat);
}

/// Different names outside the mixers have different names.
proof fn lemma_top_level_apart(a: Seq<char>, b: Seq<char>)
    requires
        top_level(a) is Some,
        top_level(a) == top_level(b),
    ensures
        a == b,
{
    reveal_strlit("enc.patcher.weight");
    reveal_strlit("enc.patcher.bias");
    reveal_strlit("dec.adapter.weight");
    reveal_strlit("dec.adapter.bias");
    reveal_strlit("head.weight");
    reveal_strlit("head.bias");
    assert("enc.patcher.weight"@.len() == 18 && "enc.patcher.weight"@[0] == 'e');
    assert("enc.patcher.bias"@.len() == 16 && "enc.patcher.bias"@[0] == 'e');
    assert("dec.adapter.weight"@.len() == 18 && "dec.adapter.weight"@[0] == 'd');
    assert("dec.adapter.bias"@.len() == 16 && "dec.adapter.bias"@[0] == 'd');
    assert("head.weight"@.len() == 11 && "head.weight"@[0] == 'h');
    assert("head.bias"@.len() == 9 && "head.bias"@[0] == 'h');
    let g = top_level(a)->0;
    assert(g[0] == top_level(b)->0[0]);
}

/// Different leaves of a mixer have different names.
proof fn lemma_mixer_leaf_apart(a: Seq<char>, b: Seq<char>)
    requires
        mixer_leaf(a) is Some,
        mixer_leaf(a) == mixer_leaf(b),
    ensures
        a == b,
{
    reveal_strlit("patch_norm.weight");
    reveal_strlit("patch_norm.bias");
    reveal_strlit("patch_fc1.weight");
    reveal_strlit("patch_fc1.bias");
    reveal_strlit("patch_fc2.weight");
    reveal_strlit("patch_fc2.bias");
    reveal_strlit("patch_gate.weight");
    reveal_strlit("patch_gate.bias");
    reveal_strlit("feat_norm.weight");
    reveal_strlit("feat_norm.bias");
    reveal_strlit("feat_fc1.weight");
    reveal_strlit("feat_fc1.bias");
    reveal_strlit("feat_fc2.weight");
    reveal_strlit("feat_fc2.bias");
    reveal_strlit("feat_gate.weight");
    reveal_strlit("feat_gate.bias");
    assert("patch_norm.weight"@.len() == 17 && "patch_norm.weight"@[7] == 'o' && "patch_norm.weight"@[8] == 'r');
    assert("patch_norm.bias"@.len() == 15 && "patch_norm.bias"@[7] == 'o' && "patch_norm.bias"@[8] == 'r');
    assert("patch_fc1.weight"@.len() == 16 && "patch_fc1.weight"@[7] == 'c' && "patch_fc1.weight"@[8] == '1');
    assert("patch_fc1.bias"@.len() == 14 && "patch_fc1.bias"@[7] == 'c' && "patch_fc1.bias"@[8] == '1');
    assert("patch_fc2.weight"@.len() == 16 && "patch_fc2.weight"@[7] == 'c' && "patch_fc2.weight"@[8] == '2');
    assert("patch_fc2.bias"@.len() == 14 && "patch_fc2.bias"@[7] == 'c' && "patch_fc2.bias"@[8] == '2');
    assert("patch_gate.weight"@.len() == 17 && "patch_gate.weight"@[7] == 'a' && "patch_gate.weight"@[8] == 't');
    assert("patch_gate.bias"@.len() == 15 && "patch_gate.bias"@[7] == 'a' && "patch_gate.bias"@[8] == 't');
    assert("feat_norm.weight"@.len() == 16 && "feat_norm.weight"@[7] == 'r' && "feat_norm.weight"@[8] == 'm');
    assert("feat_norm.bias"@.len() == 14 && "feat_norm.bias"@[7] == 'r' && "feat_norm.bias"@[8] == 'm');
    assert("feat_fc1.weight"@.len() == 15 && "feat_fc1.weight"@[7] == '1' && "feat_fc1.weight"@[8] == '.');
    assert("feat_fc1.bias"@.len() == 13 && "feat_fc1.bias"@[7] == '1' && "feat_fc1.bias"@[8] == '.');
    assert("feat_fc2.weight"@.len() == 15 && "feat_fc2.weight"@[7] == '2' && "feat_fc2.weight"@[8] == '.');
    assert("feat_fc2.bias"@.len() == 13 && "feat_fc2.bias"@[7] == '2' && "feat_fc2.bias"@[8] == '.');
    assert("feat_gate.weight"@.len() == 16 && "feat_gate.weight"@[7] == 't' && "feat_gate.weight"@[8] == 'e');
    assert("feat_gate.bias"@.len() == 14 && "feat_gate.bias"@[7] == 't' && "feat_gate.bias"@[8] == 'e');
    let g = mixer_leaf(a)->0;
    assert(g[7] == mixer_leaf(b)->0[7] && g[8] == mixer_leaf(b)->0[8]);
}

/// No name outside the mixers starts as a mixer's does.
proof fn lemma_top_level_starts(a: Seq<char>)
    requires
        top_level(a) is Some,
    ensures
        top_level(a)->0.len() > 4,
        top_level(a)->0[4] != 'b',
{
    reveal_strlit("enc.patcher.weight");
    reveal_strlit("enc.patcher.bias");
    reveal_strlit("dec.adapter.weight");
    reveal_strlit("dec.adapter.bias");
    reveal_strlit("head.weight");
    reveal_strlit("head.bias");
}

/// The number of the level, then the number of the layer and the leaf, is what a mixer's name holds.
proof fn lemma_mixer_name(level: nat, layer: nat, leaf: Seq<char>)
    ensures
        "enc.blk"@ + "."@ + text::decimal(level) + ".layer."@ + text::decimal(layer) + "."@ + leaf
            == names::joined("enc.blk."@, level, names::joined("layer."@, layer, leaf)),
{
    reveal_strlit("enc.blk");
    reveal_strlit("enc.blk.");
    reveal_strlit(".");
    reveal_strlit("layer.");
    reveal_strlit(".layer.");
    assert("enc.blk"@ + "."@ =~= "enc.blk."@);
    assert("."@ + "layer."@ =~= ".layer."@);
    assert("enc.blk"@ + "."@ + text::decimal(level) + ".layer."@ + text::decimal(layer) + "."@ + leaf
        =~= "enc.blk."@ + text::decimal(level) + ("."@ + "layer."@) + text::decimal(layer) + "."@ + leaf);
    assert("enc.blk."@ + text::decimal(level) + ("."@ + "layer."@) + text::decimal(layer) + "."@ + leaf
        =~= names::joined("enc.blk."@, level, names::joined("layer."@, layer, leaf)));
}

/// Encoder tensors with one name are the same.
proof fn lemma_encoder_apart(a: Seq<char>, b: Seq<char>)
    requires
        names::canonical(a, u32::MAX as nat),
        names::canonical(b, u32::MAX as nat),
        text::has_prefix(a, "backbone.encoder.mlp_mixer_encoder.mixers."@),
        text::has_prefix(b, "backbone.encoder.mlp_mixer_encoder.mixers."@),
        mixer_layer_name(text::without_prefix(a, "backbone.encoder.mlp_mixer_encoder.mixers."@), "enc.blk"@) is Some,
        mixer_layer_name(text::without_prefix(a, "backbone.encoder.mlp_mixer_encoder.mixers."@), "enc.blk"@)
            == mixer_layer_name(
            text::without_prefix(b, "backbone.encoder.mlp_mixer_encoder.mixers."@),
            "enc.blk"@,
        ),
    ensures
        a == b,
{
    let prefix = "backbone.encoder.mlp_mixer_encoder.mixers."@;
    let max = u32::MAX as nat;
    reveal_strlit("backbone.encoder.mlp_mixer_encoder.mixers.");
    reveal_strlit("mixer_layers.");
    let ra = text::without_prefix(a, prefix);
    let rb = text::without_prefix(b, prefix);
    names::lemma_canonical_rest(a, prefix, max);
    names::lemma_canonical_rest(b, prefix, max);
    names::lemma_canonical_leaf(ra, max);
    names::lemma_canonical_leaf(rb, max);
    let (n, ta) = names::numbered(ra, max)->0;
    let (m, tb) = names::numbered(rb, max)->0;
    let (i, la) = names::numbered(text::without_prefix(ta, "mixer_layers."@), max)->0;
    let (j, lb) = names::numbered(text::without_prefix(tb, "mixer_layers."@), max)->0;
    let inner_a = names::joined("layer."@, i, mixer_leaf(la)->0);
    let inner_b = names::joined("layer."@, j, mixer_leaf(lb)->0);
    lemma_mixer_name(n, i, mixer_leaf(la)->0);
    lemma_mixer_name(m, j, mixer_leaf(lb)->0);
    if mixer_leaf(la) == mixer_leaf(lb) {
        lemma_mixer_leaf_apart(la, lb);
    }
    if inner_a == inner_b {
        names::lemma_numbered_same(
            ta,
            tb,
            "mixer_layers."@,
            max,
            "layer."@,
            mixer_leaf(la)->0,
            mixer_leaf(lb)->0,
        );
    }
    names::lemma_numbered_same(a, b, prefix, max, "enc.blk."@, inner_a, inner_b);
}

/// Different tensors keep different names, where the mixers' numbers are written as their decimals.
pub proof fn law_names_kept_apart(a: Seq<char>, b: Seq<char>)
    requires
        names::canonical(a, u32::MAX as nat),
        names::canonical(b, u32::MAX as nat),
        mapped_name(a) is Some,
        mapped_name(b) is Some,
        a != b,
    ensures
        mapped_name(a) != mapped_name(b),
{
    reveal_strlit("enc.blk");
    reveal_strlit("dec.blk.");
    reveal_strlit("decoder.decoder_block.mixers.");
    if mapped_name(a) == mapped_name(b) {
        let g = mapped_name(a)->0;
        assert(g[0] == mapped_name(b)->0[0] && g[4] == mapped_name(b)->0[4]);
        let in_encoder = text::has_prefix(a, "backbone.encoder.mlp_mixer_encoder.mixers."@);
        if top_level(a) is Some {
            lemma_top_level_starts(a);
            if top_level(b) is Some {
                lemma_top_level_apart(a, b);
            }
        } else if top_level(b) is Some {
            lemma_top_level_starts(b);
        } else if in_encoder != text::has_prefix(b, "backbone.encoder.mlp_mixer_encoder.mixers."@) {
        } else if in_encoder {
            lemma_encoder_apart(a, b);
        } else {
            let (_n, la) = names::numbered(text::without_prefix(a, "decoder.decoder_block.mixers."@), u32::MAX as nat)->0;
            let (_m, lb) = names::numbered(text::without_prefix(b, "decoder.decoder_block.mixers."@), u32::MAX as nat)->0;
            if mixer_leaf(la) == mixer_leaf(lb) {
                lemma_mixer_leaf_apart(la, lb);
            }
            names::lemma_numbered_same(
                a,
                b,
                "decoder.decoder_block.mixers."@,
                u32::MAX as nat,
                "dec.blk."@,
                mixer_leaf(la)->0,
                mixer_leaf(lb)->0,
            );
        }
    }
}

/// The tensors outside the mixers, one by one.
proof fn lemma_top_level_listed()
    ensures
        top_level("backbone.encoder.patcher.weight"@) == Some("enc.patcher.weight"@),
        top_level("backbone.encoder.patcher.bias"@) == Some("enc.patcher.bias"@),
        top_level("decoder.adapter.weight"@) == Some("dec.adapter.weight"@),
        top_level("decoder.adapter.bias"@) == Some("dec.adapter.bias"@),
        top_level("head.base_forecast_block.weight"@) == Some("head.weight"@),
        top_level("head.base_forecast_block.bias"@) == Some("head.bias"@),
{
    reveal_strlit("backbone.encoder.patcher.weight");
    reveal_strlit("backbone.encoder.patcher.bias");
    reveal_strlit("decoder.adapter.weight");
    reveal_strlit("decoder.adapter.bias");
    reveal_strlit("head.base_forecast_block.weight");
    reveal_strlit("head.base_forecast_block.bias");
    assert("backbone.encoder.patcher.weight"@.len() == 31 && "backbone.encoder.patcher.weight"@[0] == 'b');
    assert("backbone.encoder.patcher.bias"@.len() == 29 && "backbone.encoder.patcher.bias"@[0] == 'b');
    assert("decoder.adapter.weight"@.len() == 22 && "decoder.adapter.weight"@[0] == 'd');
    assert("decoder.adapter.bias"@.len() == 20 && "decoder.adapter.bias"@[0] == 'd');
    assert("head.base_forecast_block.weight"@.len() == 31 && "head.base_forecast_block.weight"@[0] == 'h');
    assert("head.base_forecast_block.bias"@.len() == 29 && "head.base_forecast_block.bias"@[0] == 'h');
}

/// The tensors of a mixer, one by one.
proof fn lemma_mixer_leaves_listed()
    ensures
        mixer_leaf("patch_mixer.norm.norm.weight"@) == Some("patch_norm.weight"@),
        mixer_leaf("patch_mixer.norm.norm.bias"@) == Some("patch_norm.bias"@),
        mixer_leaf("patch_mixer.mlp.fc1.weight"@) == Some("patch_fc1.weight"@),
        mixer_leaf("patch_mixer.mlp.fc1.bias"@) == Some("patch_fc1.bias"@),
        mixer_leaf("patch_mixer.mlp.fc2.weight"@) == Some("patch_fc2.weight"@),
        mixer_leaf("patch_mixer.mlp.fc2.bias"@) == Some("patch_fc2.bias"@),
        mixer_leaf("patch_mixer.gating_block.attn_layer.weight"@) == Some("patch_gate.weight"@),
        mixer_leaf("patch_mixer.gating_block.attn_layer.bias"@) == Some("patch_gate.bias"@),
        mixer_leaf("feature_mixer.norm.norm.weight"@) == Some("feat_norm.weight"@),
        mixer_leaf("feature_mixer.norm.norm.bias"@) == Some("feat_norm.bias"@),
        mixer_leaf("feature_mixer.mlp.fc1.weight"@) == Some("feat_fc1.weight"@),
        mixer_leaf("feature_mixer.mlp.fc1.bias"@) == Some("feat_fc1.bias"@),
        mixer_leaf("feature_mixer.mlp.fc2.weight"@) == Some("feat_fc2.weight"@),
        mixer_leaf("feature_mixer.mlp.fc2.bias"@) == Some("feat_fc2.bias"@),
        mixer_leaf("feature_mixer.gating_block.attn_layer.weight"@) == Some("feat_gate.weight"@),
        mixer_leaf("feature_mixer.gating_block.attn_layer.bias"@) == Some("feat_gate.bias"@),
{
    reveal_strlit("patch_mixer.norm.norm.weight");
    reveal_strlit("patch_mixer.norm.norm.bias");
    reveal_strlit("patch_mixer.mlp.fc1.weight");
    reveal_strlit("patch_mixer.mlp.fc1.bias");
    reveal_strlit("patch_mixer.mlp.fc2.weight");
    reveal_strlit("patch_mixer.mlp.fc2.bias");
    reveal_strlit("patch_mixer.gating_block.attn_layer.weight");
    reveal_strlit("patch_mixer.gating_block.attn_layer.bias");
    reveal_strlit("feature_mixer.norm.norm.weight");
    reveal_strlit("feature_mixer.norm.norm.bias");
    reveal_strlit("feature_mixer.mlp.fc1.weight");
    reveal_strlit("feature_mixer.mlp.fc1.bias");
    reveal_strlit("feature_mixer.mlp.fc2.weight");
    reveal_strlit("feature_mixer.mlp.fc2.bias");
    reveal_strlit("feature_mixer.gating_block.attn_layer.weight");
    reveal_strlit("feature_mixer.gating_block.attn_layer.bias");
    assert("patch_mixer.norm.norm.weight"@.len() == 28 && "patch_mixer.norm.norm.weight"@[18] == 'o' && "patch_mixer.norm.norm.weight"@[20] == 'm');
    assert("patch_mixer.norm.norm.bias"@.len() == 26 && "patch_mixer.norm.norm.bias"@[18] == 'o' && "patch_mixer.norm.norm.bias"@[20] == 'm');
    assert("patch_mixer.mlp.fc1.weight"@.len() == 26 && "patch_mixer.mlp.fc1.weight"@[18] == '1' && "patch_mixer.mlp.fc1.weight"@[20] == 'w');
    assert("patch_mixer.mlp.fc1.bias"@.len() == 24 && "patch_mixer.mlp.fc1.bias"@[18] == '1' && "patch_mixer.mlp.fc1.bias"@[20] == 'b');
    assert("patch_mixer.mlp.fc2.weight"@.len() == 26 && "patch_mixer.mlp.fc2.weight"@[18] == '2' && "patch_mixer.mlp.fc2.weight"@[20] == 'w');
    assert("patch_mixer.mlp.fc2.bias"@.len() == 24 && "patch_mixer.mlp.fc2.bias"@[18] == '2' && "patch_mixer.mlp.fc2.bias"@[20] == 'b');
    assert("patch_mixer.gating_block.attn_layer.weight"@.len() == 42 && "patch_mixer.gating_block.attn_layer.weight"@[18] == '_' && "patch_mixer.gating_block.attn_layer.weight"@[20] == 'l');
    assert("patch_mixer.gating_block.attn_layer.bias"@.len() == 40 && "patch_mixer.gating_block.attn_layer.bias"@[18] == '_' && "patch_mixer.gating_block.attn_layer.bias"@[20] == 'l');
    assert("feature_mixer.norm.norm.weight"@.len() == 30 && "feature_mixer.norm.norm.weight"@[18] == '.' && "feature_mixer.norm.norm.weight"@[20] == 'o');
    assert("feature_mixer.norm.norm.bias"@.len() == 28 && "feature_mixer.norm.norm.bias"@[18] == '.' && "feature_mixer.norm.norm.bias"@[20] == 'o');
    assert("feature_mixer.mlp.fc1.weight"@.len() == 28 && "feature_mixer.mlp.fc1.weight"@[18] == 'f' && "feature_mixer.mlp.fc1.weight"@[20] == '1');
    assert("feature_mixer.mlp.fc1.bias"@.len() == 26 && "feature_mixer.mlp.fc1.bias"@[18] == 'f' && "feature_mixer.mlp.fc1.bias"@[20] == '1');
    assert("feature_mixer.mlp.fc2.weight"@.len() == 28 && "feature_mixer.mlp.fc2.weight"@[18] == 'f' && "feature_mixer.mlp.fc2.weight"@[20] == '2');
    assert("feature_mixer.mlp.fc2.bias"@.len() == 26 && "feature_mixer.mlp.fc2.bias"@[18] == 'f' && "feature_mixer.mlp.fc2.bias"@[20] == '2');
    assert("feature_mixer.gating_block.attn_layer.weight"@.len() == 44 && "feature_mixer.gating_block.attn_layer.weight"@[18] == 'n' && "feature_mixer.gating_block.attn_layer.weight"@[20] == '_');
    assert("feature_mixer.gating_block.attn_layer.bias"@.len() == 42 && "feature_mixer.gating_block.attn_layer.bias"@[18] == 'n' && "feature_mixer.gating_block.attn_layer.bias"@[20] == '_');
}

/// What the tensors outside the mixers are named.
pub proof fn law_top_level_names()
    ensures
        mapped_name("backbone.encoder.patcher.weight"@) == Some("enc.patcher.weight"@),
        mapped_name("backbone.encoder.patcher.bias"@) == Some("enc.patcher.bias"@),
        mapped_name("decoder.adapter.weight"@) == Some("dec.adapter.weight"@),
        mapped_name("decoder.adapter.bias"@) == Some("dec.adapter.bias"@),
        mapped_name("head.base_forecast_block.weight"@) == Some("head.weight"@),
        mapped_name("head.base_forecast_block.bias"@) == Some("head.bias"@),
{
    lemma_top_level_listed();
}

proof fn lemma_encoder_name(level: nat, layer: nat, leaf: Seq<char>)
    requires
        level <= u32::MAX,
        layer <= u32::MAX,
        mixer_leaf(leaf) is Some,
    ensures
        mapped_name(
            "backbone.encoder.mlp_mixer_encoder.mixers."@ + (text::decimal(level) + "."@ + ("mixer_layers."@ + (text::decimal(layer)
                + "."@ + leaf))),
        ) == Some(
            "enc.blk"@ + "."@ + text::decimal(level) + ".layer."@ + text::decimal(layer) + "."@ + mixer_leaf(leaf)->0,
        ),
{
    let rest = text::decimal(level) + "."@ + ("mixer_layers."@ + (text::decimal(layer) + "."@ + leaf));
    names::lemma_prefix_removed("backbone.encoder.mlp_mixer_encoder.mixers."@, rest);
    law_mixers_keep_numbers(level, layer, leaf, "enc.blk"@);
    reveal_strlit("backbone.encoder.mlp_mixer_encoder.mixers.");
    reveal_strlit("backbone.encoder.patcher.weight");
    names::lemma_other_prefix("backbone.encoder.mlp_mixer_encoder.mixers."@, rest, "backbone.encoder.patcher.weight"@, 17);
    reveal_strlit("backbone.encoder.patcher.bias");
    names::lemma_other_prefix("backbone.encoder.mlp_mixer_encoder.mixers."@, rest, "backbone.encoder.patcher.bias"@, 17);
    reveal_strlit("decoder.adapter.weight");
    names::lemma_other_prefix("backbone.encoder.mlp_mixer_encoder.mixers."@, rest, "decoder.adapter.weight"@, 0);
    reveal_strlit("decoder.adapter.bias");
    names::lemma_other_prefix("backbone.encoder.mlp_mixer_encoder.mixers."@, rest, "decoder.adapter.bias"@, 0);
    reveal_strlit("head.base_forecast_block.weight");
    names::lemma_other_prefix("backbone.encoder.mlp_mixer_encoder.mixers."@, rest, "head.base_forecast_block.weight"@, 0);
    reveal_strlit("head.base_forecast_block.bias");
    names::lemma_other_prefix("backbone.encoder.mlp_mixer_encoder.mixers."@, rest, "head.base_forecast_block.bias"@, 0);
}

proof fn lemma_decoder_name(n: nat, leaf: Seq<char>)
    requires
        n <= u32::MAX,
        mixer_leaf(leaf) is Some,
    ensures
        mapped_name("decoder.decoder_block.mixers."@ + (text::decimal(n) + "."@ + leaf)) == Some(
            "dec.blk."@ + text::decimal(n) + "."@ + mixer_leaf(leaf)->0,
        ),
{
    let rest = text::decimal(n) + "."@ + leaf;
    names::lemma_prefix_removed("decoder.decoder_block.mixers."@, rest);
    names::law_numbered_reads_back(n, leaf, u32::MAX as nat);
    reveal_strlit("decoder.decoder_block.mixers.");
    reveal_strlit("backbone.encoder.mlp_mixer_encoder.mixers.");
    names::lemma_other_prefix("decoder.decoder_block.mixers."@, rest, "backbone.encoder.mlp_mixer_encoder.mixers."@, 0);
    reveal_strlit("backbone.encoder.patcher.weight");
    names::lemma_other_prefix("decoder.decoder_block.mixers."@, rest, "backbone.encoder.patcher.weight"@, 0);
    reveal_strlit("backbone.encoder.patcher.bias");
    names::lemma_other_prefix("decoder.decoder_block.mixers."@, rest, "backbone.encoder.patcher.bias"@, 0);
    reveal_strlit("decoder.adapter.weight");
    names::lemma_other_prefix("decoder.decoder_block.mixers."@, rest, "decoder.adapter.weight"@, 8);
    reveal_strlit("decoder.adapter.bias");
    names::lemma_other_prefix("decoder.decoder_block.mixers."@, rest, "decoder.adapter.bias"@, 8);
    reveal_strlit("head.base_forecast_block.weight");
    names::lemma_other_prefix("decoder.decoder_block.mixers."@, rest, "head.base_forecast_block.weight"@, 0);
    reveal_strlit("head.base_forecast_block.bias");
    names::lemma_other_prefix("decoder.decoder_block.mixers."@, rest, "head.base_forecast_block.bias"@, 0);
}

/// What the tensors of every layer of every level of the encoder are named.
pub proof fn law_encoder_names(level: nat, layer: nat)
    requires
        level <= u32::MAX,
        layer <= u32::MAX,
    ensures
        mapped_name(
            "backbone.encoder.mlp_mixer_encoder.mixers."@ + (text::decimal(level) + "."@ + ("mixer_layers."@ + (text::decimal(layer)
                + "."@ + "patch_mixer.norm.norm.weight"@))),
        ) == Some(
            "enc.blk"@ + "."@ + text::decimal(level) + ".layer."@ + text::decimal(layer) + "."@ + "patch_norm.weight"@,
        ),
        mapped_name(
            "backbone.encoder.mlp_mixer_encoder.mixers."@ + (text::decimal(level) + "."@ + ("mixer_layers."@ + (text::decimal(layer)
                + "."@ + "patch_mixer.norm.norm.bias"@))),
        ) == Some(
            "enc.blk"@ + "."@ + text::decimal(level) + ".layer."@ + text::decimal(layer) + "."@ + "patch_norm.bias"@,
        ),
        mapped_name(
            "backbone.encoder.mlp_mixer_encoder.mixers."@ + (text::decimal(level) + "."@ + ("mixer_layers."@ + (text::decimal(layer)
                + "."@ + "patch_mixer.mlp.fc1.weight"@))),
        ) == Some(
            "enc.blk"@ + "."@ + text::decimal(level) + ".layer."@ + text::decimal(layer) + "."@ + "patch_fc1.weight"@,
        ),
        mapped_name(
            "backbone.encoder.mlp_mixer_encoder.mixers."@ + (text::decimal(level) + "."@ + ("mixer_layers."@ + (text::decimal(layer)
                + "."@ + "patch_mixer.mlp.fc1.bias"@))),
        ) == Some(
            "enc.blk"@ + "."@ + text::decimal(level) + ".layer."@ + text::decimal(layer) + "."@ + "patch_fc1.bias"@,
        ),
        mapped_name(
            "backbone.encoder.mlp_mixer_encoder.mixers."@ + (text::decimal(level) + "."@ + ("mixer_layers."@ + (text::decimal(layer)
                + "."@ + "patch_mixer.mlp.fc2.weight"@))),
        ) == Some(
            "enc.blk"@ + "."@ + text::decimal(level) + ".layer."@ + text::decimal(layer) + "."@ + "patch_fc2.weight"@,
        ),
        mapped_name(
            "backbone.encoder.mlp_mixer_encoder.mixers."@ + (text::decimal(level) + "."@ + ("mixer_layers."@ + (text::decimal(layer)
                + "."@ + "patch_mixer.mlp.fc2.bias"@))),
        ) == Some(
            "enc.blk"@ + "."@ + text::decimal(level) + ".layer."@ + text::decimal(layer) + "."@ + "patch_fc2.bias"@,
        ),
        mapped_name(
            "backbone.encoder.mlp_mixer_encoder.mixers."@ + (text::decimal(level) + "."@ + ("mixer_layers."@ + (text::decimal(layer)
                + "."@ + "patch_mixer.gating_block.attn_layer.weight"@))),
        ) == Some(
            "enc.blk"@ + "."@ + text::decimal(level) + ".layer."@ + text::decimal(layer) + "."@ + "patch_gate.weight"@,
        ),
        mapped_name(
            "backbone.encoder.mlp_mixer_encoder.mixers."@ + (text::decimal(level) + "."@ + ("mixer_layers."@ + (text::decimal(layer)
                + "."@ + "patch_mixer.gating_block.attn_layer.bias"@))),
        ) == Some(
            "enc.blk"@ + "."@ + text::decimal(level) + ".layer."@ + text::decimal(layer) + "."@ + "patch_gate.bias"@,
        ),
        mapped_name(
            "backbone.encoder.mlp_mixer_encoder.mixers."@ + (text::decimal(level) + "."@ + ("mixer_layers."@ + (text::decimal(layer)
                + "."@ + "feature_mixer.norm.norm.weight"@))),
        ) == Some(
            "enc.blk"@ + "."@ + text::decimal(level) + ".layer."@ + text::decimal(layer) + "."@ + "feat_norm.weight"@,
        ),
        mapped_name(
            "backbone.encoder.mlp_mixer_encoder.mixers."@ + (text::decimal(level) + "."@ + ("mixer_layers."@ + (text::decimal(layer)
                + "."@ + "feature_mixer.norm.norm.bias"@))),
        ) == Some(
            "enc.blk"@ + "."@ + text::decimal(level) + ".layer."@ + text::decimal(layer) + "."@ + "feat_norm.bias"@,
        ),
        mapped_name(
            "backbone.encoder.mlp_mixer_encoder.mixers."@ + (text::decimal(level) + "."@ + ("mixer_layers."@ + (text::decimal(layer)
                + "."@ + "feature_mixer.mlp.fc1.weight"@))),
        ) == Some(
            "enc.blk"@ + "."@ + text::decimal(level) + ".layer."@ + text::decimal(layer) + "."@ + "feat_fc1.weight"@,
        ),
        mapped_name(
            "backbone.encoder.mlp_mixer_encoder.mixers."@ + (text::decimal(level) + "."@ + ("mixer_layers."@ + (text::decimal(layer)
                + "."@ + "feature_mixer.mlp.fc1.bias"@))),
        ) == Some(
            "enc.blk"@ + "."@ + text::decimal(level) + ".layer."@ + text::decimal(layer) + "."@ + "feat_fc1.bias"@,
        ),
        mapped_name(
            "backbone.encoder.mlp_mixer_encoder.mixers."@ + (text::decimal(level) + "."@ + ("mixer_layers."@ + (text::decimal(layer)
                + "."@ + "feature_mixer.mlp.fc2.weight"@))),
        ) == Some(
            "enc.blk"@ + "."@ + text::decimal(level) + ".layer."@ + text::decimal(layer) + "."@ + "feat_fc2.weight"@,
        ),
        mapped_name(
            "backbone.encoder.mlp_mixer_encoder.mixers."@ + (text::decimal(level) + "."@ + ("mixer_layers."@ + (text::decimal(layer)
                + "."@ + "feature_mixer.mlp.fc2.bias"@))),
        ) == Some(
            "enc.blk"@ + "."@ + text::decimal(level) + ".layer."@ + text::decimal(layer) + "."@ + "feat_fc2.bias"@,
        ),
        mapped_name(
            "backbone.encoder.mlp_mixer_encoder.mixers."@ + (text::decimal(level) + "."@ + ("mixer_layers."@ + (text::decimal(layer)
                + "."@ + "feature_mixer.gating_block.attn_layer.weight"@))),
        ) == Some(
            "enc.blk"@ + "."@ + text::decimal(level) + ".layer."@ + text::decimal(layer) + "."@ + "feat_gate.weight"@,
        ),
        mapped_name(
            "backbone.encoder.mlp_mixer_encoder.mixers."@ + (text::decimal(level) + "."@ + ("mixer_layers."@ + (text::decimal(layer)
                + "."@ + "feature_mixer.gating_block.attn_layer.bias"@))),
        ) == Some(
            "enc.blk"@ + "."@ + text::decimal(level) + ".layer."@ + text::decimal(layer) + "."@ + "feat_gate.bias"@,
        ),
{
    lemma_mixer_leaves_listed();
    lemma_encoder_name(level, layer, "patch_mixer.norm.norm.weight"@);
    lemma_encoder_name(level, layer, "patch_mixer.norm.norm.bias"@);
    lemma_encoder_name(level, layer, "patch_mixer.mlp.fc1.weight"@);
    lemma_encoder_name(level, layer, "patch_mixer.mlp.fc1.bias"@);
    lemma_encoder_name(level, layer, "patch_mixer.mlp.fc2.weight"@);
    lemma_encoder_name(level, layer, "patch_mixer.mlp.fc2.bias"@);
    lemma_encoder_name(level, layer, "patch_mixer.gating_block.attn_layer.weight"@);
    lemma_encoder_name(level, layer, "patch_mixer.gating_block.attn_layer.bias"@);
    lemma_encoder_name(level, layer, "feature_mixer.norm.norm.weight"@);
    lemma_encoder_name(level, layer, "feature_mixer.norm.norm.bias"@);
    lemma_encoder_name(level, layer, "feature_mixer.mlp.fc1.weight"@);
    lemma_encoder_name(level, layer, "feature_mixer.mlp.fc1.bias"@);
    lemma_encoder_name(level, layer, "feature_mixer.mlp.fc2.weight"@);
    lemma_encoder_name(level, layer, "feature_mixer.mlp.fc2.bias"@);
    lemma_encoder_name(level, layer, "feature_mixer.gating_block.attn_layer.weight"@);
    lemma_encoder_name(level, layer, "feature_mixer.gating_block.attn_layer.bias"@);
}

/// What the tensors of every layer of the decoder are named.
pub proof fn law_decoder_names(n: nat)
    requires
        n <= u32::MAX,
    ensures
        mapped_name("decoder.decoder_block.mixers."@ + (text::decimal(n) + "."@ + "patch_mixer.norm.norm.weight"@)) == Some(
            "dec.blk."@ + text::decimal(n) + "."@ + "patch_norm.weight"@,
        ),
        mapped_name("decoder.decoder_block.mixers."@ + (text::decimal(n) + "."@ + "patch_mixer.norm.norm.bias"@)) == Some(
            "dec.blk."@ + text::decimal(n) + "."@ + "patch_norm.bias"@,
        ),
        mapped_name("decoder.decoder_block.mixers."@ + (text::decimal(n) + "."@ + "patch_mixer.mlp.fc1.weight"@)) == Some(
            "dec.blk."@ + text::decimal(n) + "."@ + "patch_fc1.weight"@,
        ),
        mapped_name("decoder.decoder_block.mixers."@ + (text::decimal(n) + "."@ + "patch_mixer.mlp.fc1.bias"@)) == Some(
            "dec.blk."@ + text::decimal(n) + "."@ + "patch_fc1.bias"@,
        ),
        mapped_name("decoder.decoder_block.mixers."@ + (text::decimal(n) + "."@ + "patch_mixer.mlp.fc2.weight"@)) == Some(
            "dec.blk."@ + text::decimal(n) + "."@ + "patch_fc2.weight"@,
        ),
        mapped_name("decoder.decoder_block.mixers."@ + (text::decimal(n) + "."@ + "patch_mixer.mlp.fc2.bias"@)) == Some(
            "dec.blk."@ + text::decimal(n) + "."@ + "patch_fc2.bias"@,
        ),
        mapped_name("decoder.decoder_block.mixers."@ + (text::decimal(n) + "."@ + "patch_mixer.gating_block.attn_layer.weight"@)) == Some(
            "dec.blk."@ + text::decimal(n) + "."@ + "patch_gate.weight"@,
        ),
        mapped_name("decoder.decoder_block.mixers."@ + (text::decimal(n) + "."@ + "patch_mixer.gating_block.attn_layer.bias"@)) == Some(
            "dec.blk."@ + text::decimal(n) + "."@ + "patch_gate.bias"@,
        ),
        mapped_name("decoder.decoder_block.mixers."@ + (text::decimal(n) + "."@ + "feature_mixer.norm.norm.weight"@)) == Some(
            "dec.blk."@ + text::decimal(n) + "."@ + "feat_norm.weight"@,
        ),
        mapped_name("decoder.decoder_block.mixers."@ + (text::decimal(n) + "."@ + "feature_mixer.norm.norm.bias"@)) == Some(
            "dec.blk."@ + text::decimal(n) + "."@ + "feat_norm.bias"@,
        ),
        mapped_name("decoder.decoder_block.mixers."@ + (text::decimal(n) + "."@ + "feature_mixer.mlp.fc1.weight"@)) == Some(
            "dec.blk."@ + text::decimal(n) + "."@ + "feat_fc1.weight"@,
        ),
        mapped_name("decoder.decoder_block.mixers."@ + (text::decimal(n) + "."@ + "feature_mixer.mlp.fc1.bias"@)) == Some(
            "dec.blk."@ + text::decimal(n) + "."@ + "feat_fc1.bias"@,
        ),
        mapped_name("decoder.decoder_block.mixers."@ + (text::decimal(n) + "."@ + "feature_mixer.mlp.fc2.weight"@)) == Some(
            "dec.blk."@ + text::decimal(n) + "."@ + "feat_fc2.weight"@,
        ),
        mapped_name("decoder.decoder_block.mixers."@ + (text::decimal(n) + "."@ + "feature_mixer.mlp.fc2.bias"@)) == Some(
            "dec.blk."@ + text::decimal(n) + "."@ + "feat_fc2.bias"@,
        ),
        mapped_name("decoder.decoder_block.mixers."@ + (text::decimal(n) + "."@ + "feature_mixer.gating_block.attn_layer.weight"@)) == Some(
            "dec.blk."@ + text::decimal(n) + "."@ + "feat_gate.weight"@,
        ),
        mapped_name("decoder.decoder_block.mixers."@ + (text::decimal(n) + "."@ + "feature_mixer.gating_block.attn_layer.bias"@)) == Some(
            "dec.blk."@ + text::decimal(n) + "."@ + "feat_gate.bias"@,
        ),
{
    lemma_mixer_leaves_listed();
    lemma_decoder_name(n, "patch_mixer.norm.norm.weight"@);
    lemma_decoder_name(n, "patch_mixer.norm.norm.bias"@);
    lemma_decoder_name(n, "patch_mixer.mlp.fc1.weight"@);
    lemma_decoder_name(n, "patch_mixer.mlp.fc1.bias"@);
    lemma_decoder_name(n, "patch_mixer.mlp.fc2.weight"@);
    lemma_decoder_name(n, "patch_mixer.mlp.fc2.bias"@);
    lemma_decoder_name(n, "patch_mixer.gating_block.attn_layer.weight"@);
    lemma_decoder_name(n, "patch_mixer.gating_block.attn_layer.bias"@);
    lemma_decoder_name(n, "feature_mixer.norm.norm.weight"@);
    lemma_decoder_name(n, "feature_mixer.norm.norm.bias"@);
    lemma_decoder_name(n, "feature_mixer.mlp.fc1.weight"@);
    lemma_decoder_name(n, "feature_mixer.mlp.fc1.bias"@);
    lemma_decoder_name(n, "feature_mixer.mlp.fc2.weight"@);
    lemma_decoder_name(n, "feature_mixer.mlp.fc2.bias"@);
    lemma_decoder_name(n, "feature_mixer.gating_block.attn_layer.weight"@);
    lemma_decoder_name(n, "feature_mixer.gating_block.attn_layer.bias"@);
}

/// No other tensor has a name.
pub proof fn law_nothing_else_is_named(name: Seq<char>)
    requires
        mapped_name(name) is Some,
    ensures
        ({
            ||| name == "backbone.encoder.patcher.weight"@
            ||| name == "backbone.encoder.patcher.bias"@
            ||| name == "decoder.adapter.weight"@
            ||| name == "decoder.adapter.bias"@
            ||| name == "head.base_forecast_block.weight"@
            ||| name == "head.base_forecast_block.bias"@
            ||| text::has_prefix(name, "backbone.encoder.mlp_mixer_encoder.mixers."@) && ({
                ||| text::has_suffix(name, "patch_mixer.norm.norm.weight"@)
                ||| text::has_suffix(name, "patch_mixer.norm.norm.bias"@)
                ||| text::has_suffix(name, "patch_mixer.mlp.fc1.weight"@)
                ||| text::has_suffix(name, "patch_mixer.mlp.fc1.bias"@)
                ||| text::has_suffix(name, "patch_mixer.mlp.fc2.weight"@)
                ||| text::has_suffix(name, "patch_mixer.mlp.fc2.bias"@)
                ||| text::has_suffix(name, "patch_mixer.gating_block.attn_layer.weight"@)
                ||| text::has_suffix(name, "patch_mixer.gating_block.attn_layer.bias"@)
                ||| text::has_suffix(name, "feature_mixer.norm.norm.weight"@)
                ||| text::has_suffix(name, "feature_mixer.norm.norm.bias"@)
                ||| text::has_suffix(name, "feature_mixer.mlp.fc1.weight"@)
                ||| text::has_suffix(name, "feature_mixer.mlp.fc1.bias"@)
                ||| text::has_suffix(name, "feature_mixer.mlp.fc2.weight"@)
                ||| text::has_suffix(name, "feature_mixer.mlp.fc2.bias"@)
                ||| text::has_suffix(name, "feature_mixer.gating_block.attn_layer.weight"@)
                ||| text::has_suffix(name, "feature_mixer.gating_block.attn_layer.bias"@)
            })
            ||| text::has_prefix(name, "decoder.decoder_block.mixers."@) && ({
                ||| text::has_suffix(name, "patch_mixer.norm.norm.weight"@)
                ||| text::has_suffix(name, "patch_mixer.norm.norm.bias"@)
                ||| text::has_suffix(name, "patch_mixer.mlp.fc1.weight"@)
                ||| text::has_suffix(name, "patch_mixer.mlp.fc1.bias"@)
                ||| text::has_suffix(name, "patch_mixer.mlp.fc2.weight"@)
                ||| text::has_suffix(name, "patch_mixer.mlp.fc2.bias"@)
                ||| text::has_suffix(name, "patch_mixer.gating_block.attn_layer.weight"@)
                ||| text::has_suffix(name, "patch_mixer.gating_block.attn_layer.bias"@)
                ||| text::has_suffix(name, "feature_mixer.norm.norm.weight"@)
                ||| text::has_suffix(name, "feature_mixer.norm.norm.bias"@)
                ||| text::has_suffix(name, "feature_mixer.mlp.fc1.weight"@)
                ||| text::has_suffix(name, "feature_mixer.mlp.fc1.bias"@)
                ||| text::has_suffix(name, "feature_mixer.mlp.fc2.weight"@)
                ||| text::has_suffix(name, "feature_mixer.mlp.fc2.bias"@)
                ||| text::has_suffix(name, "feature_mixer.gating_block.attn_layer.weight"@)
                ||| text::has_suffix(name, "feature_mixer.gating_block.attn_layer.bias"@)
            })
        }),
{
    if top_level(name) is None {
        if text::has_prefix(name, "backbone.encoder.mlp_mixer_encoder.mixers."@) {
            let prefix = "backbone.encoder.mlp_mixer_encoder.mixers."@;
            names::lemma_numbered_ends(name, prefix, u32::MAX as nat);
            let (_n, tail) = names::numbered(text::without_prefix(name, prefix), u32::MAX as nat)->0;
            names::lemma_numbered_ends(tail, "mixer_layers."@, u32::MAX as nat);
            let (_m, leaf) = names::numbered(text::without_prefix(tail, "mixer_layers."@), u32::MAX as nat)->0;
            assert(mixer_leaf(leaf) is Some);
            assert(name.subrange(name.len() - leaf.len(), name.len() as int) =~= tail.subrange(
                tail.len() - leaf.len(),
                tail.len() as int,
            ));
        } else {
            names::lemma_numbered_ends(name, "decoder.decoder_block.mixers."@, u32::MAX as nat);
            let (_n, leaf) = names::numbered(text::without_prefix(name, "decoder.decoder_block.mixers."@), u32::MAX as nat)->0;
            assert(mixer_leaf(leaf) is Some);
        }
    }
}

} // verus!
