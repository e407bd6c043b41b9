//! Mitra: its configuration and the names of the checkpoint's tensors in a GGUF file.

use vstd::prelude::*;

use crate::json::{self, JsonError, Member, MemberView};
use crate::models::names;
use crate::text;

verus! {

/// What a model predicts.
#[derive(Clone, Copy, Debug, PartialEq, Eq, Structural)]
pub enum Task {
    Classification,
    Regression,
}

/// The architecture of Mitra. The two published variants differ in the width of the output and
/// in the task.
#[derive(Clone, Copy, Debug)]
pub struct MitraConfig {
    pub dim: usize,
    pub n_layers: usize,
    pub n_heads: usize,
    /// The most classes the classifier knows, or one for the regressor.
    pub dim_output: usize,
    pub task: Task,
}

impl MitraConfig {
    /// The published classifier.
    pub fn classifier() -> (r: Self)
        ensures
            r == (MitraConfig {
                dim: 512,
                n_layers: 12,
                n_heads: 4,
                dim_output: 10,
                task: Task::Classification,
            }),
    {
        MitraConfig { dim: 512, n_layers: 12, n_heads: 4, dim_output: 10, task: Task::Classification }
    }

    /// The published regressor.
    pub fn regressor() -> (r: Self)
        ensures
            r == (MitraConfig { dim: 512, n_layers: 12, n_heads: 4, dim_output: 1, task: Task::Regression }),
    {
        MitraConfig { dim: 512, n_layers: 12, n_heads: 4, dim_output: 1, task: Task::Regression }
    }

    /// The configuration that the members of a JSON object make up.
    pub fn from_members(m: &ConfigMembers) -> (r: Self)
        ensures
            r == config_of(m.task@, m.dim@, m.n_layers@, m.n_heads@, m.dim_output@),
    {
        let task: Task = match &m.task.text {
            Some(t) => if text::same(t.as_str(), "REGRESSION") {
                Task::Regression
            } else {
                Task::Classification
            },
            None => Task::Classification,
        };
        MitraConfig {
            dim: number(&m.dim, 512),
            n_layers: number(&m.n_layers, 12),
            n_heads: number(&m.n_heads, 4),
            dim_output: number(
                &m.dim_output,
                match task {
                    Task::Regression => 1,
                    Task::Classification => 10,
                },
            ),
            task,
        }
    }

    /// The configuration of a JSON text; what it does not say is as published. A text that is no JSON,
    /// or too long to be read, has none.
    pub fn from_json(config: &str) -> (r: Result<Self, JsonError>)
        ensures
            match r {
                Ok(c) => json::readable(config@) && c == config_of(
                    json::member_of(config@, "task"@),
                    json::member_of(config@, "dim"@),
                    json::member_of(config@, "n_layers"@),
                    json::member_of(config@, "n_heads"@),
                    json::member_of(config@, "dim_output"@),
                ),
                Err(e) => e is Malformed && !json::readable(config@),
            },
    {
        let task = match json::member(config, "task") {
            Ok(m) => m,
            Err(e) => return Err(e),
        };
        let dim = match json::member(config, "dim") {
            Ok(m) => m,
            Err(e) => return Err(e),
        };
        let n_layers = match json::member(config, "n_layers") {
            Ok(m) => m,
            Err(e) => return Err(e),
        };
        let n_heads = match json::member(config, "n_heads") {
            Ok(m) => m,
            Err(e) => return Err(e),
        };
        let dim_output = match json::member(config, "dim_output") {
            Ok(m) => m,
            Err(e) => return Err(e),
        };
        Ok(Self::from_members(&ConfigMembers { task, dim, n_layers, n_heads, dim_output }))
    }

    /// Whether the model was made for a task.
    pub fn made_for(&self, task: Task) -> (r: Result<(), WrongTask>)
        ensures
            r == (if self.task == task {
                Ok(())
            } else {
                Err(WrongTask { task: self.task })
            }),
    {
        if self.task == task {
            Ok(())
        } else {
            Err(WrongTask { task: self.task })
        }
    }
}

/// The members of a configuration.
#[derive(Debug)]
pub struct ConfigMembers {
    pub task: Member,
    pub dim: Member,
    pub n_layers: Member,
    pub n_heads: Member,
    pub dim_output: Member,
}

/// A whole number of a member, cut to the machine's width, or the one given.
pub open spec fn number_or(m: MemberView, default: usize) -> usize {
    match m.unsigned {
        Some(v) => v as usize,
        None => default,
    }
}

fn number(m: &Member, default: usize) -> (r: usize)
    ensures
        r == number_or(m@, default),
{
    match m.unsigned {
        Some(v) => v as usize,
        None => default,
    }
}

/// The task that a member names: a classification, unless it is a regression.
pub open spec fn task_of(m: MemberView) -> Task {
    if m.text == Some("REGRESSION"@) {
        Task::Regression
    } else {
        Task::Classification
    }
}

/// The configuration that members make up.
pub open spec fn config_of(
    task: MemberView,
    dim: MemberView,
    n_layers: MemberView,
    n_heads: MemberView,
    dim_output: MemberView,
) -> MitraConfig {
    MitraConfig {
        dim: number_or(dim, 512),
        n_layers: number_or(n_layers, 12),
        n_heads: number_or(n_heads, 4),
        dim_output: number_or(
            dim_output,
            if task_of(task) == Task::Regression {
                1
            } else {
                10
            },
        ),
        task: task_of(task),
    }
}

/// A configuration that says nothing is the published classifier's, and one that says only that it is
/// a regression the published regressor's.
pub proof fn law_published(task: MemberView, rest: MemberView)
    requires
        rest.unsigned is None,
    ensures
        task.text is None ==> config_of(task, rest, rest, rest, rest) == (MitraConfig {
            dim: 512,
            n_layers: 12,
            n_heads: 4,
            dim_output: 10,
            task: Task::Classification,
        }),
        task.text == Some("REGRESSION"@) ==> config_of(task, rest, rest, rest, rest) == (MitraConfig {
            dim: 512,
            n_layers: 12,
            n_heads: 4,
            dim_output: 1,
            task: Task::Regression,
        }),
{
}

/// A model was asked for a task that it was not made for.
#[derive(Debug, Clone, Copy, PartialEq, Eq, Structural)]
pub struct WrongTask {
    /// What it was made for.
    pub task: Task,
}

impl WrongTask {
    /// The error in words.
    pub fn message(self) -> (r: String)
        ensures
            r@ == (match self.task {
                Task::Regression => "model was loaded as a regressor"@,
                Task::Classification => "model was loaded as a classifier"@,
            }),
    {
        match self.task {
            Task::Regression => "model was loaded as a regressor".to_string(),
            Task::Classification => "model was loaded as a classifier".to_string(),
        }
    }
}

/// Tensors that stand outside the blocks.
pub open spec fn top_level(name: Seq<char>) -> Option<Seq<char>> {
    if name == "final_layer.weight"@ {
        Some("head.weight"@)
    } else if name == "final_layer.bias"@ {
        Some("head.bias"@)
    } else if name == "final_layer_norm.weight"@ {
        Some("norm_f.weight"@)
    } else if name == "final_layer_norm.bias"@ {
        Some("norm_f.bias"@)
    } else if name == "x_embedding.x_embedding.weight"@ {
        Some("x_embed.weight"@)
    } else if name == "x_embedding.x_embedding.bias"@ {
        Some("x_embed.bias"@)
    } else if name == "y_embedding.y_embedding.weight"@ {
        Some("y_embed.weight"@)
    } else if name == "y_embedding.y_embedding.bias"@ {
        Some("y_embed.bias"@)
    } else if name == "y_embedding.y_mask.weight"@ {
        Some("y_mask.weight"@)
    } else {
        None
    }
}

/// Tensors of one block.
pub open spec fn block_leaf(leaf: Seq<char>) -> Option<Seq<char>> {
    if leaf == "layer_norm1.weight"@ {
        Some("ln1.weight"@)
    } else if leaf == "layer_norm1.bias"@ {
        Some("ln1.bias"@)
    } else if leaf == "layer_norm2.weight"@ {
        Some("ln2.weight"@)
    } else if leaf == "layer_norm2.bias"@ {
        Some("ln2.bias"@)
    } else if leaf == "layer_norm3.weight"@ {
        Some("ln3.weight"@)
    } else if leaf == "layer_norm3.bias"@ {
        Some("ln3.bias"@)
    } else if leaf == "layer_norm4.weight"@ {
        Some("ln4.weight"@)
    } else if leaf == "layer_norm4.bias"@ {
        Some("ln4.bias"@)
    } else if leaf == "attention1.q.weight"@ {
        Some("attn_row.q.weight"@)
    } else if leaf == "attention1.q.bias"@ {
        Some("attn_row.q.bias"@)
    } else if leaf == "attention1.k.weight"@ {
        Some("attn_row.k.weight"@)
    } else if leaf == "attention1.k.bias"@ {
        Some("attn_row.k.bias"@)
    } else if leaf == "attention1.v.weight"@ {
        Some("attn_row.v.weight"@)
    } else if leaf == "attention1.v.bias"@ {
        Some("attn_row.v.bias"@)
    } else if leaf == "attention1.o.weight"@ {
        Some("attn_row.o.weight"@)
    } else if leaf == "attention1.o.bias"@ {
        Some("attn_row.o.bias"@)
    } else if leaf == "attention2.q.weight"@ {
        Some("attn_feat.q.weight"@)
    } else if leaf == "attention2.q.bias"@ {
        Some("attn_feat.q.bias"@)
    } else if leaf == "attention2.k.weight"@ {
        Some("attn_feat.k.weight"@)
    } else if leaf == "attention2.k.bias"@ {
        Some("attn_feat.k.bias"@)
    } else if leaf == "attention2.v.weight"@ {
        Some("attn_feat.v.weight"@)
    } else if leaf == "attention2.v.bias"@ {
        Some("attn_feat.v.bias"@)
    } else if leaf == "attention2.o.weight"@ {
        Some("attn_feat.o.weight"@)
    } else if leaf == "attention2.o.bias"@ {
        Some("attn_feat.o.bias"@)
    } else if leaf == "linear1.weight"@ {
        Some("mlp1_fc1.weight"@)
    } else if leaf == "linear1.bias"@ {
        Some("mlp1_fc1.bias"@)
    } else if leaf == "linear2.weight"@ {
        Some("mlp1_fc2.weight"@)
    } else if leaf == "linear2.bias"@ {
        Some("mlp1_fc2.bias"@)
    } else if leaf == "linear3.weight"@ {
        Some("mlp2_fc1.weight"@)
    } else if leaf == "linear3.bias"@ {
        Some("mlp2_fc1.bias"@)
    } else if leaf == "linear4.weight"@ {
        Some("mlp2_fc2.weight"@)
    } else if leaf == "linear4.bias"@ {
        Some("mlp2_fc2.bias"@)
    } else {
        None
    }
}

/// The GGUF name of a checkpoint's tensor, if it has one.
pub open spec fn mapped_name(name: Seq<char>) -> Option<Seq<char>> {
    if top_level(name) is Some {
        top_level(name)
    } else if text::has_prefix(name, "layers."@) {
        match names::numbered(text::without_prefix(name, "layers."@), u32::MAX as nat) {
            Some((n, leaf)) => names::numbered_name("blk."@, n, block_leaf(leaf)),
            None => None,
        }
    } else {
        None
    }
}

/// Maps a tensor that stands outside the blocks.
fn map_top_level(name: &str) -> (r: Option<&'static str>)
    ensures
        names::held_str(r) == top_level(name@),
{
    if text::same(name, "final_layer.weight") {
        Some("head.weight")
    } else if text::same(name, "final_layer.bias") {
        Some("head.bias")
    } else if text::same(name, "final_layer_norm.weight") {
        Some("norm_f.weight")
    } else if text::same(name, "final_layer_norm.bias") {
        Some("norm_f.bias")
    } else if text::same(name, "x_embedding.x_embedding.weight") {
        Some("x_embed.weight")
    } else if text::same(name, "x_embedding.x_embedding.bias") {
        Some("x_embed.bias")
    } else if text::same(name, "y_embedding.y_embedding.weight") {
        Some("y_embed.weight")
    } else if text::same(name, "y_embedding.y_embedding.bias") {
        Some("y_embed.bias")
    } else if text::same(name, "y_embedding.y_mask.weight") {
        Some("y_mask.weight")
    } else {
        None
    }
}

/// Maps a tensor of one block.
fn map_block_leaf(leaf: &str) -> (r: Option<&'static str>)
    ensures
        names::held_str(r) == block_leaf(leaf@),
{
    if text::same(leaf, "layer_norm1.weight") {
        Some("ln1.weight")
    } else if text::same(leaf, "layer_norm1.bias") {
        Some("ln1.bias")
    } else if text::same(leaf, "layer_norm2.weight") {
        Some("ln2.weight")
    } else if text::same(leaf, "layer_norm2.bias") {
        Some("ln2.bias")
    } else if text::same(leaf, "layer_norm3.weight") {
        Some("ln3.weight")
    } else if text::same(leaf, "layer_norm3.bias") {
        Some("ln3.bias")
    } else if text::same(leaf, "layer_norm4.weight") {
        Some("ln4.weight")
    } else if text::same(leaf, "layer_norm4.bias") {
        Some("ln4.bias")
    } else if text::same(leaf, "attention1.q.weight") {
        Some("attn_row.q.weight")
    } else if text::same(leaf, "attention1.q.bias") {
        Some("attn_row.q.bias")
    } else if text::same(leaf, "attention1.k.weight") {
        Some("attn_row.k.weight")
    } else if text::same(leaf, "attention1.k.bias") {
        Some("attn_row.k.bias")
    } else if text::same(leaf, "attention1.v.weight") {
        Some("attn_row.v.weight")
    } else if text::same(leaf, "attention1.v.bias") {
        Some("attn_row.v.bias")
    } else if text::same(leaf, "attention1.o.weight") {
        Some("attn_row.o.weight")
    } else if text::same(leaf, "attention1.o.bias") {
        Some("attn_row.o.bias")
    } else if text::same(leaf, "attention2.q.weight") {
        Some("attn_feat.q.weight")
    } else if text::same(leaf, "attention2.q.bias") {
        Some("attn_feat.q.bias")
    } else if text::same(leaf, "attention2.k.weight") {
        Some("attn_feat.k.weight")
    } else if text::same(leaf, "attention2.k.bias") {
        Some("attn_feat.k.bias")
    } else if text::same(leaf, "attention2.v.weight") {
        Some("attn_feat.v.weight")
    } else if text::same(leaf, "attention2.v.bias") {
        Some("attn_feat.v.bias")
    } else if text::same(leaf, "attention2.o.weight") {
        Some("attn_feat.o.weight")
    } else if text::same(leaf, "attention2.o.bias") {
        Some("attn_feat.o.bias")
    } else if text::same(leaf, "linear1.weight") {
        Some("mlp1_fc1.weight")
    } else if text::same(leaf, "linear1.bias") {
        Some("mlp1_fc1.bias")
    } else if text::same(leaf, "linear2.weight") {
        Some("mlp1_fc2.weight")
    } else if text::same(leaf, "linear2.bias") {
        Some("mlp1_fc2.bias")
    } else if text::same(leaf, "linear3.weight") {
        Some("mlp2_fc1.weight")
    } else if text::same(leaf, "linear3.bias") {
        Some("mlp2_fc1.bias")
    } else if text::same(leaf, "linear4.weight") {
        Some("mlp2_fc2.weight")
    } else if text::same(leaf, "linear4.bias") {
        Some("mlp2_fc2.bias")
    } else {
        None
    }
}

/// Maps a checkpoint's tensor name to its GGUF name.
pub fn map_tensor_name(name: &str) -> (r: Option<String>)
    ensures
        names::held(r) == mapped_name(name@),
{
    if let Some(mapped) = map_top_level(name) {
        return Some(mapped.to_owned());
    }
    match text::strip_prefix(name, "layers.") {
        Some(rest) => match names::split_number(rest, u32::MAX as u64) {
            Some((n, leaf)) => names::join_numbered_leaf("blk.", n, map_block_leaf(leaf)),
            None => None,
        },
        None => None,
    }
}

/// Block numbers are kept: tensor `leaf` of block `n` maps to the mapped leaf of block `n`.
pub proof fn law_blocks_keep_numbers(n: nat, leaf: Seq<char>)
    requires
        n <= u32::MAX,
    ensures
        mapped_name("layers."@ + (text::decimal(n) + "."@ + leaf)) == names::numbered_name(
            "blk."@,
            n,
            block_leaf(leaf),
        ),
{
    let rest = text::decimal(n) + "."@ + leaf;
    let name = "layers."@ + rest;
    names::lemma_prefix_removed("layers."@, rest);
    names::law_numbered_reads_back(n, leaf, u32::MAX as nat);
    reveal_strlit("layers.");
    assert(name[0] == 'l');
    reveal_strlit("final_layer.weight");
    assert("final_layer.weight"@[0] == 'f');
    reveal_strlit("final_layer.bias");
    assert("final_layer.bias"@[0] == 'f');
    reveal_strlit("final_layer_norm.weight");
    assert("final_layer_norm.weight"@[0] == 'f');
    reveal_strlit("final_layer_norm.bias");
    assert("final_layer_norm.bias"@[0] == 'f');
    reveal_strlit("x_embedding.x_embedding.weight");
    assert("x_embedding.x_embedding.weight"@[0] == 'x');
    reveal_strlit("x_embedding.x_embedding.bias");
    assert("x_embedding.x_embedding.bias"@[0] == 'x');
    reveal_strlit("y_embedding.y_embedding.weight");
    assert("y_embedding.y_embedding.weight"@[0] == 'y');
    reveal_strlit("y_embedding.y_embedding.bias");
    assert("y_embedding.y_embedding.bias"@[0] == 'y');
    reveal_strlit("y_embedding.y_mask.weight");
    assert("y_embedding.y_mask.weight"@[0] == 'y');
}

/// Different names outside the blocks have different names.
proof fn lemma_top_level_apart(a: Seq<char>, b: Seq<char>)
    requires
        top_level(a) is Some,
        top_level(a) == top_level(b),
    ensures
        a == b,
{
    reveal_strlit("head.weight");
    reveal_strlit("head.bias");
    reveal_strlit("norm_f.weight");
    reveal_strlit("norm_f.bias");
    reveal_strlit("x_embed.weight");
    reveal_strlit("x_embed.bias");
    reveal_strlit("y_embed.weight");
    reveal_strlit("y_embed.bias");
    reveal_strlit("y_mask.weight");
    assert("head.weight"@.len() == 11 && "head.weight"@[0] == 'h');
    assert("head.bias"@.len() == 9 && "head.bias"@[0] == 'h');
    assert("norm_f.weight"@.len() == 13 && "norm_f.weight"@[0] == 'n');
    assert("norm_f.bias"@.len() == 11 && "norm_f.bias"@[0] == 'n');
    assert("x_embed.weight"@.len() == 14 && "x_embed.weight"@[0] == 'x');
    assert("x_embed.bias"@.len() == 12 && "x_embed.bias"@[0] == 'x');
    assert("y_embed.weight"@.len() == 14 && "y_embed.weight"@[0] == 'y');
    assert("y_embed.bias"@.len() == 12 && "y_embed.bias"@[0] == 'y');
    assert("y_mask.weight"@.len() == 13 && "y_mask.weight"@[0] == 'y');
    let g = top_level(a)->0;
    assert(g[0] == top_level(b)->0[0]);
}

/// Different leaves of a block have different names.
proof fn lemma_block_leaf_apart(a: Seq<char>, b: Seq<char>)
    requires
        block_leaf(a) is Some,
        block_leaf(a) == block_leaf(b),
    ensures
        a == b,
{
    reveal_strlit("ln1.weight");
    reveal_strlit("ln1.bias");
    reveal_strlit("ln2.weight");
    reveal_strlit("ln2.bias");
    reveal_strlit("ln3.weight");
    reveal_strlit("ln3.bias");
    reveal_strlit("ln4.weight");
    reveal_strlit("ln4.bias");
    reveal_strlit("attn_row.q.weight");
    reveal_strlit("attn_row.q.bias");
    reveal_strlit("attn_row.k.weight");
    reveal_strlit("attn_row.k.bias");
    reveal_strlit("attn_row.v.weight");
    reveal_strlit("attn_row.v.bias");
    reveal_strlit("attn_row.o.weight");
    reveal_strlit("attn_row.o.bias");
    reveal_strlit("attn_feat.q.weight");
    reveal_strlit("attn_feat.q.bias");
    reveal_strlit("attn_feat.k.weight");
    reveal_strlit("attn_feat.k.bias");
    reveal_strlit("attn_feat.v.weight");
    reveal_strlit("attn_feat.v.bias");
    reveal_strlit("attn_feat.o.weight");
    reveal_strlit("attn_feat.o.bias");
    reveal_strlit("mlp1_fc1.weight");
    reveal_strlit("mlp1_fc1.bias");
    reveal_strlit("mlp1_fc2.weight");
    reveal_strlit("mlp1_fc2.bias");
    reveal_strlit("mlp2_fc1.weight");
    reveal_strlit("mlp2_fc1.bias");
    reveal_strlit("mlp2_fc2.weight");
    reveal_strlit("mlp2_fc2.bias");
    assert("ln1.weight"@.len() == 10 && "ln1.weight"@[3] == '.' && "ln1.weight"@[4] == 'w' && "ln1.weight"@[2] == '1');
    assert("ln1.bias"@.len() == 8 && "ln1.bias"@[3] == '.' && "ln1.bias"@[2] == '1' && "ln1.bias"@[0] == 'l');
    assert("ln2.weight"@.len() == 10 && "ln2.weight"@[3] == '.' && "ln2.weight"@[4] == 'w' && "ln2.weight"@[2] == '2');
    assert("ln2.bias"@.len() == 8 && "ln2.bias"@[3] == '.' && "ln2.bias"@[2] == '2' && "ln2.bias"@[0] == 'l');
    assert("ln3.weight"@.len() == 10 && "ln3.weight"@[3] == '.' && "ln3.weight"@[4] == 'w' && "ln3.weight"@[2] == '3');
    assert("ln3.bias"@.len() == 8 && "ln3.bias"@[3] == '.' && "ln3.bias"@[2] == '3' && "ln3.bias"@[0] == 'l');
    assert("ln4.weight"@.len() == 10 && "ln4.weight"@[3] == '.' && "ln4.weight"@[4] == 'w' && "ln4.weight"@[2] == '4');
    assert("ln4.bias"@.len() == 8 && "ln4.bias"@[3] == '.' && "ln4.bias"@[2] == '4' && "ln4.bias"@[0] == 'l');
    assert("attn_row.q.weight"@.len() == 17 && "attn_row.q.weight"@[3] == 'n' && "attn_row.q.weight"@[11] == 'w' && "attn_row.q.weight"@[9] == 'q');
    assert("attn_row.q.bias"@.len() == 15 && "attn_row.q.bias"@[3] == 'n' && "attn_row.q.bias"@[9] == 'q' && "attn_row.q.bias"@[7] == 'w');
    assert("attn_row.k.weight"@.len() == 17 && "attn_row.k.weight"@[3] == 'n' && "attn_row.k.weight"@[11] == 'w' && "attn_row.k.weight"@[9] == 'k');
    assert("attn_row.k.bias"@.len() == 15 && "attn_row.k.bias"@[3] == 'n' && "attn_row.k.bias"@[9] == 'k' && "attn_row.k.bias"@[7] == 'w');
    assert("attn_row.v.weight"@.len() == 17 && "attn_row.v.weight"@[3] == 'n' && "attn_row.v.weight"@[11] == 'w' && "attn_row.v.weight"@[9] == 'v');
    assert("attn_row.v.bias"@.len() == 15 && "attn_row.v.bias"@[3] == 'n' && "attn_row.v.bias"@[9] == 'v' && "attn_row.v.bias"@[7] == 'w');
    assert("attn_row.o.weight"@.len() == 17 && "attn_row.o.weight"@[3] == 'n' && "attn_row.o.weight"@[11] == 'w' && "attn_row.o.weight"@[9] == 'o');
    assert("attn_row.o.bias"@.len() == 15 && "attn_row.o.bias"@[3] == 'n' && "attn_row.o.bias"@[9] == 'o' && "attn_row.o.bias"@[7] == 'w');
    assert("attn_feat.q.weight"@.len() == 18 && "attn_feat.q.weight"@[3] == 'n' && "attn_feat.q.weight"@[12] == 'w' && "attn_feat.q.weight"@[10] == 'q');
    assert("attn_feat.q.bias"@.len() == 16 && "attn_feat.q.bias"@[3] == 'n' && "attn_feat.q.bias"@[10] == 'q' && "attn_feat.q.bias"@[8] == 't');
    assert("attn_feat.k.weight"@.len() == 18 && "attn_feat.k.weight"@[3] == 'n' && "attn_feat.k.weight"@[12] == 'w' && "attn_feat.k.weight"@[10] == 'k');
    assert("attn_feat.k.bias"@.len() == 16 && "attn_feat.k.bias"@[3] == 'n' && "attn_feat.k.bias"@[10] == 'k' && "attn_feat.k.bias"@[8] == 't');
    assert("attn_feat.v.weight"@.len() == 18 && "attn_feat.v.weight"@[3] == 'n' && "attn_feat.v.weight"@[12] == 'w' && "attn_feat.v.weight"@[10] == 'v');
    assert("attn_feat.v.bias"@.len() == 16 && "attn_feat.v.bias"@[3] == 'n' && "attn_feat.v.bias"@[10] == 'v' && "attn_feat.v.bias"@[8] == 't');
    assert("attn_feat.o.weight"@.len() == 18 && "attn_feat.o.weight"@[3] == 'n' && "attn_feat.o.weight"@[12] == 'w' && "attn_feat.o.weight"@[10] == 'o');
    assert("attn_feat.o.bias"@.len() == 16 && "attn_feat.o.bias"@[3] == 'n' && "attn_feat.o.bias"@[10] == 'o' && "attn_feat.o.bias"@[8] == 't');
    assert("mlp1_fc1.weight"@.len() == 15 && "mlp1_fc1.weight"@[3] == '1' && "mlp1_fc1.weight"@[9] == 'w' && "mlp1_fc1.weight"@[7] == '1');
    assert("mlp1_fc1.bias"@.len() == 13 && "mlp1_fc1.bias"@[3] == '1' && "mlp1_fc1.bias"@[7] == '1' && "mlp1_fc1.bias"@[5] == 'f');
    assert("mlp1_fc2.weight"@.len() == 15 && "mlp1_fc2.weight"@[3] == '1' && "mlp1_fc2.weight"@[9] == 'w' && "mlp1_fc2.weight"@[7] == '2');
    assert("mlp1_fc2.bias"@.len() == 13 && "mlp1_fc2.bias"@[3] == '1' && "mlp1_fc2.bias"@[7] == '2' && "mlp1_fc2.bias"@[5] == 'f');
    assert("mlp2_fc1.weight"@.len() == 15 && "mlp2_fc1.weight"@[3] == '2' && "mlp2_fc1.weight"@[9] == 'w' && "mlp2_fc1.weight"@[7] == '1');
    assert("mlp2_fc1.bias"@.len() == 13 && "mlp2_fc1.bias"@[3] == '2' && "mlp2_fc1.bias"@[7] == '1' && "mlp2_fc1.bias"@[5] == 'f');
    assert("mlp2_fc2.weight"@.len() == 15 && "mlp2_fc2.weight"@[3] == '2' && "mlp2_fc2.weight"@[9] == 'w' && "mlp2_fc2.weight"@[7] == '2');
    assert("mlp2_fc2.bias"@.len() == 13 && "mlp2_fc2.bias"@[3] == '2' && "mlp2_fc2.bias"@[7] == '2' && "mlp2_fc2.bias"@[5] == 'f');
    let g = block_leaf(a)->0;
    assert(g[3] == block_leaf(b)->0[3] && g[g.len() - 6] == block_leaf(b)->0[g.len() - 6] && g[g.len() - 8] == block_leaf(b)->0[g.len() - 8]);
}

/// No name outside the blocks starts as a block's does.
proof fn lemma_top_level_starts(a: Seq<char>)
    requires
        top_level(a) is Some,
    ensures
        top_level(a)->0.len() > 0,
        top_level(a)->0[0] != 'b',
{
    reveal_strlit("head.weight");
    reveal_strlit("head.bias");
    reveal_strlit("norm_f.weight");
    reveal_strlit("norm_f.bias");
    reveal_strlit("x_embed.weight");
    reveal_strlit("x_embed.bias");
    reveal_strlit("y_embed.weight");
    reveal_strlit("y_embed.bias");
    reveal_strlit("y_mask.weight");
}

/// Different tensors keep different names, where the blocks' numbers are written as their decimals.
pub proof fn law_names_kept_apart(a: Seq<char>, b: Seq<char>)
    requires
        names::canonical(a, u32::MAX as nat),
        names::canonical(b, u32::MAX as nat),
        mapped_name(a) is Some,
        mapped_name(b) is Some,
        a != b,
    ensures
        mapped_name(a) != mapped_name(b),
{
    reveal_strlit("blk.");
    reveal_strlit("layers.");
    if mapped_name(a) == mapped_name(b) {
        if top_level(a) is Some {
            lemma_top_level_starts(a);
            if top_level(b) is Some {
                lemma_top_level_apart(a, b);
            }
        } else if top_level(b) is Some {
            lemma_top_level_starts(b);
        } else {
            let (_n, la) = names::numbered(text::without_prefix(a, "layers."@), u32::MAX as nat)->0;
            let (_m, lb) = names::numbered(text::without_prefix(b, "layers."@), u32::MAX as nat)->0;
            if block_leaf(la) == block_leaf(lb) {
                lemma_block_leaf_apart(la, lb);
            }
            names::lemma_numbered_same(
                a,
                b,
                "layers."@,
                u32::MAX as nat,
                "blk."@,
                block_leaf(la)->0,
                block_leaf(lb)->0,
            );
        }
    }
}

/// The tensors outside the blocks, one by one.
proof fn lemma_top_level_listed()
    ensures
        top_level("final_layer.weight"@) == Some("head.weight"@),
        top_level("final_layer.bias"@) == Some("head.bias"@),
        top_level("final_layer_norm.weight"@) == Some("norm_f.weight"@),
        top_level("final_layer_norm.bias"@) == Some("norm_f.bias"@),
        top_level("x_embedding.x_embedding.weight"@) == Some("x_embed.weight"@),
        top_level("x_embedding.x_embedding.bias"@) == Some("x_embed.bias"@),
        top_level("y_embedding.y_embedding.weight"@) == Some("y_embed.weight"@),
        top_level("y_embedding.y_embedding.bias"@) == Some("y_embed.bias"@),
        top_level("y_embedding.y_mask.weight"@) == Some("y_mask.weight"@),
{
    reveal_strlit("final_layer.weight");
    reveal_strlit("final_layer.bias");
    reveal_strlit("final_layer_norm.weight");
    reveal_strlit("final_layer_norm.bias");
    reveal_strlit("x_embedding.x_embedding.weight");
    reveal_strlit("x_embedding.x_embedding.bias");
    reveal_strlit("y_embedding.y_embedding.weight");
    reveal_strlit("y_embedding.y_embedding.bias");
    reveal_strlit("y_embedding.y_mask.weight");
    assert("final_layer.weight"@.len() == 18 && "final_layer.weight"@[0] == 'f');
    assert("final_layer.bias"@.len() == 16 && "final_layer.bias"@[0] == 'f');
    assert("final_layer_norm.weight"@.len() == 23 && "final_layer_norm.weight"@[0] == 'f');
    assert("final_layer_norm.bias"@.len() == 21 && "final_layer_norm.bias"@[0] == 'f');
    assert("x_embedding.x_embedding.weight"@.len() == 30 && "x_embedding.x_embedding.weight"@[0] == 'x');
    assert("x_embedding.x_embedding.bias"@.len() == 28 && "x_embedding.x_embedding.bias"@[0] == 'x');
    assert("y_embedding.y_embedding.weight"@.len() == 30 && "y_embedding.y_embedding.weight"@[0] == 'y');
    assert("y_embedding.y_embedding.bias"@.len() == 28 && "y_embedding.y_embedding.bias"@[0] == 'y');
    assert("y_embedding.y_mask.weight"@.len() == 25 && "y_embedding.y_mask.weight"@[0] == 'y');
}

/// The tensors of a block, one by one.
proof fn lemma_block_leaves_listed()
    ensures
        block_leaf("layer_norm1.weight"@) == Some("ln1.weight"@),
        block_leaf("layer_norm1.bias"@) == Some("ln1.bias"@),
        block_leaf("layer_norm2.weight"@) == Some("ln2.weight"@),
        block_leaf("layer_norm2.bias"@) == Some("ln2.bias"@),
        block_leaf("layer_norm3.weight"@) == Some("ln3.weight"@),
        block_leaf("layer_norm3.bias"@) == Some("ln3.bias"@),
        block_leaf("layer_norm4.weight"@) == Some("ln4.weight"@),
        block_leaf("layer_norm4.bias"@) == Some("ln4.bias"@),
        block_leaf("attention1.q.weight"@) == Some("attn_row.q.weight"@),
        block_leaf("attention1.q.bias"@) == Some("attn_row.q.bias"@),
        block_leaf("attention1.k.weight"@) == Some("attn_row.k.weight"@),
        block_leaf("attention1.k.bias"@) == Some("attn_row.k.bias"@),
        block_leaf("attention1.v.weight"@) == Some("attn_row.v.weight"@),
        block_leaf("attention1.v.bias"@) == Some("attn_row.v.bias"@),
        block_leaf("attention1.o.weight"@) == Some("attn_row.o.weight"@),
        block_leaf("attention1.o.bias"@) == Some("attn_row.o.bias"@),
        block_leaf("attention2.q.weight"@) == Some("attn_feat.q.weight"@),
        block_leaf("attention2.q.bias"@) == Some("attn_feat.q.bias"@),
        block_leaf("attention2.k.weight"@) == Some("attn_feat.k.weight"@),
        block_leaf("attention2.k.bias"@) == Some("attn_feat.k.bias"@),
        block_leaf("attention2.v.weight"@) == Some("attn_feat.v.weight"@),
        block_leaf("attention2.v.bias"@) == Some("attn_feat.v.bias"@),
        block_leaf("attention2.o.weight"@) == Some("attn_feat.o.weight"@),
        block_leaf("attention2.o.bias"@) == Some("attn_feat.o.bias"@),
        block_leaf("linear1.weight"@) == Some("mlp1_fc1.weight"@),
        block_leaf("linear1.bias"@) == Some("mlp1_fc1.bias"@),
        block_leaf("linear2.weight"@) == Some("mlp1_fc2.weight"@),
        block_leaf("linear2.bias"@) == Some("mlp1_fc2.bias"@),
        block_leaf("linear3.weight"@) == Some("mlp2_fc1.weight"@),
        block_leaf("linear3.bias"@) == Some("mlp2_fc1.bias"@),
        block_leaf("linear4.weight"@) == Some("mlp2_fc2.weight"@),
        block_leaf("linear4.bias"@) == Some("mlp2_fc2.bias"@),
{
    reveal_strlit("layer_norm1.weight");
    reveal_strlit("layer_norm1.bias");
    reveal_strlit("layer_norm2.weight");
    reveal_strlit("layer_norm2.bias");
    reveal_strlit("layer_norm3.weight");
    reveal_strlit("layer_norm3.bias");
    reveal_strlit("layer_norm4.weight");
    reveal_strlit("layer_norm4.bias");
    reveal_strlit("attention1.q.weight");
    reveal_strlit("attention1.q.bias");
    reveal_strlit("attention1.k.weight");
    reveal_strlit("attention1.k.bias");
    reveal_strlit("attention1.v.weight");
    reveal_strlit("attention1.v.bias");
    reveal_strlit("attention1.o.weight");
    reveal_strlit("attention1.o.bias");
    reveal_strlit("attention2.q.weight");
    reveal_strlit("attention2.q.bias");
    reveal_strlit("attention2.k.weight");
    reveal_strlit("attention2.k.bias");
    reveal_strlit("attention2.v.weight");
    reveal_strlit("attention2.v.bias");
    reveal_strlit("attention2.o.weight");
    reveal_strlit("attention2.o.bias");
    reveal_strlit("linear1.weight");
    reveal_strlit("linear1.bias");
    reveal_strlit("linear2.weight");
    reveal_strlit("linear2.bias");
    reveal_strlit("linear3.weight");
    reveal_strlit("linear3.bias");
    reveal_strlit("linear4.weight");
    reveal_strlit("linear4.bias");
    assert("layer_norm1.weight"@.len() == 18 && "layer_norm1.weight"@[9] == 'm' && "layer_norm1.weight"@[10] == '1' && "layer_norm1.weight"@[12] == 'w');
    assert("layer_norm1.bias"@.len() == 16 && "layer_norm1.bias"@[8] == 'r' && "layer_norm1.bias"@[9] == 'm' && "layer_norm1.bias"@[10] == '1');
    assert("layer_norm2.weight"@.len() == 18 && "layer_norm2.weight"@[9] == 'm' && "layer_norm2.weight"@[10] == '2' && "layer_norm2.weight"@[12] == 'w');
    assert("layer_norm2.bias"@.len() == 16 && "layer_norm2.bias"@[8] == 'r' && "layer_norm2.bias"@[9] == 'm' && "layer_norm2.bias"@[10] == '2');
    assert("layer_norm3.weight"@.len() == 18 && "layer_norm3.weight"@[9] == 'm' && "layer_norm3.weight"@[10] == '3' && "layer_norm3.weight"@[12] == 'w');
    assert("layer_norm3.bias"@.len() == 16 && "layer_norm3.bias"@[8] == 'r' && "layer_norm3.bias"@[9] == 'm' && "layer_norm3.bias"@[10] == '3');
    assert("layer_norm4.weight"@.len() == 18 && "layer_norm4.weight"@[9] == 'm' && "layer_norm4.weight"@[10] == '4' && "layer_norm4.weight"@[12] == 'w');
    assert("layer_norm4.bias"@.len() == 16 && "layer_norm4.bias"@[8] == 'r' && "layer_norm4.bias"@[9] == 'm' && "layer_norm4.bias"@[10] == '4');
    assert("attention1.q.weight"@.len() == 19 && "attention1.q.weight"@[9] == '1' && "attention1.q.weight"@[11] == 'q' && "attention1.q.weight"@[13] == 'w');
    assert("attention1.q.bias"@.len() == 17 && "attention1.q.bias"@[9] == '1' && "attention1.q.bias"@[11] == 'q');
    assert("attention1.k.weight"@.len() == 19 && "attention1.k.weight"@[9] == '1' && "attention1.k.weight"@[11] == 'k' && "attention1.k.weight"@[13] == 'w');
    assert("attention1.k.bias"@.len() == 17 && "attention1.k.bias"@[9] == '1' && "attention1.k.bias"@[11] == 'k');
    assert("attention1.v.weight"@.len() == 19 && "attention1.v.weight"@[9] == '1' && "attention1.v.weight"@[11] == 'v' && "attention1.v.weight"@[13] == 'w');
    assert("attention1.v.bias"@.len() == 17 && "attention1.v.bias"@[9] == '1' && "attention1.v.bias"@[11] == 'v');
    assert("attention1.o.weight"@.len() == 19 && "attention1.o.weight"@[9] == '1' && "attention1.o.weight"@[11] == 'o' && "attention1.o.weight"@[13] == 'w');
    assert("attention1.o.bias"@.len() == 17 && "attention1.o.bias"@[9] == '1' && "attention1.o.bias"@[11] == 'o');
    assert("attention2.q.weight"@.len() == 19 && "attention2.q.weight"@[9] == '2' && "attention2.q.weight"@[11] == 'q' && "attention2.q.weight"@[13] == 'w');
    assert("attention2.q.bias"@.len() == 17 && "attention2.q.bias"@[9] == '2' && "attention2.q.bias"@[11] == 'q');
    assert("attention2.k.weight"@.len() == 19 && "attention2.k.weight"@[9] == '2' && "attention2.k.weight"@[11] == 'k' && "attention2.k.weight"@[13] == 'w');
    assert("attention2.k.bias"@.len() == 17 && "attention2.k.bias"@[9] == '2' && "attention2.k.bias"@[11] == 'k');
    assert("attention2.v.weight"@.len() == 19 && "attention2.v.weight"@[9] == '2' && "attention2.v.weight"@[11] == 'v' && "attention2.v.weight"@[13] == 'w');
    assert("attention2.v.bias"@.len() == 17 && "attention2.v.bias"@[9] == '2' && "attention2.v.bias"@[11] == 'v');
    assert("attention2.o.weight"@.len() == 19 && "attention2.o.weight"@[9] == '2' && "attention2.o.weight"@[11] == 'o' && "attention2.o.weight"@[13] == 'w');
    assert("attention2.o.bias"@.len() == 17 && "attention2.o.bias"@[9] == '2' && "attention2.o.bias"@[11] == 'o');
    assert("linear1.weight"@.len() == 14 && "linear1.weight"@[6] == '1' && "linear1.weight"@[8] == 'w' && "linear1.weight"@[9] == 'e');
    assert("linear1.bias"@.len() == 12 && "linear1.bias"@[4] == 'a' && "linear1.bias"@[6] == '1' && "linear1.bias"@[9] == 'i');
    assert("linear2.weight"@.len() == 14 && "linear2.weight"@[6] == '2' && "linear2.weight"@[8] == 'w' && "linear2.weight"@[9] == 'e');
    assert("linear2.bias"@.len() == 12 && "linear2.bias"@[4] == 'a' && "linear2.bias"@[6] == '2' && "linear2.bias"@[9] == 'i');
    assert("linear3.weight"@.len() == 14 && "linear3.weight"@[6] == '3' && "linear3.weight"@[8] == 'w' && "linear3.weight"@[9] == 'e');
    assert("linear3.bias"@.len() == 12 && "linear3.bias"@[4] == 'a' && "linear3.bias"@[6] == '3' && "linear3.bias"@[9] == 'i');
    assert("linear4.weight"@.len() == 14 && "linear4.weight"@[6] == '4' && "linear4.weight"@[8] == 'w' && "linear4.weight"@[9] == 'e');
    assert("linear4.bias"@.len() == 12 && "linear4.bias"@[4] == 'a' && "linear4.bias"@[6] == '4' && "linear4.bias"@[9] == 'i');
}

/// What the tensors outside the blocks are named.
pub proof fn law_top_level_names()
    ensures
        mapped_name("final_layer.weight"@) == Some("head.weight"@),
        mapped_name("final_layer.bias"@) == Some("head.bias"@),
        mapped_name("final_layer_norm.weight"@) == Some("norm_f.weight"@),
        mapped_name("final_layer_norm.bias"@) == Some("norm_f.bias"@),
        mapped_name("x_embedding.x_embedding.weight"@) == Some("x_embed.weight"@),
        mapped_name("x_embedding.x_embedding.bias"@) == Some("x_embed.bias"@),
        mapped_name("y_embedding.y_embedding.weight"@) == Some("y_embed.weight"@),
        mapped_name("y_embedding.y_embedding.bias"@) == Some("y_embed.bias"@),
        mapped_name("y_embedding.y_mask.weight"@) == Some("y_mask.weight"@),
{
    lemma_top_level_listed();
}

/// What the tensors of every block are named.
pub proof fn law_block_names(n: nat)
    requires
        n <= u32::MAX,
    ensures
        mapped_name("layers."@ + (text::decimal(n) + "."@ + "layer_norm1.weight"@)) == Some(
            "blk."@ + text::decimal(n) + "."@ + "ln1.weight"@,
        ),
        mapped_name("layers."@ + (text::decimal(n) + "."@ + "layer_norm1.bias"@)) == Some(
            "blk."@ + text::decimal(n) + "."@ + "ln1.bias"@,
        ),
        mapped_name("layers."@ + (text::decimal(n) + "."@ + "layer_norm2.weight"@)) == Some(
            "blk."@ + text::decimal(n) + "."@ + "ln2.weight"@,
        ),
        mapped_name("layers."@ + (text::decimal(n) + "."@ + "layer_norm2.bias"@)) == Some(
            "blk."@ + text::decimal(n) + "."@ + "ln2.bias"@,
        ),
        mapped_name("layers."@ + (text::decimal(n) + "."@ + "layer_norm3.weight"@)) == Some(
            "blk."@ + text::decimal(n) + "."@ + "ln3.weight"@,
        ),
        mapped_name("layers."@ + (text::decimal(n) + "."@ + "layer_norm3.bias"@)) == Some(
            "blk."@ + text::decimal(n) + "."@ + "ln3.bias"@,
        ),
        mapped_name("layers."@ + (text::decimal(n) + "."@ + "layer_norm4.weight"@)) == Some(
            "blk."@ + text::decimal(n) + "."@ + "ln4.weight"@,
        ),
        mapped_name("layers."@ + (text::decimal(n) + "."@ + "layer_norm4.bias"@)) == Some(
            "blk."@ + text::decimal(n) + "."@ + "ln4.bias"@,
        ),
        mapped_name("layers."@ + (text::decimal(n) + "."@ + "attention1.q.weight"@)) == Some(
            "blk."@ + text::decimal(n) + "."@ + "attn_row.q.weight"@,
        ),
        mapped_name("layers."@ + (text::decimal(n) + "."@ + "attention1.q.bias"@)) == Some(
            "blk."@ + text::decimal(n) + "."@ + "attn_row.q.bias"@,
        ),
        mapped_name("layers."@ + (text::decimal(n) + "."@ + "attention1.k.weight"@)) == Some(
            "blk."@ + text::decimal(n) + "."@ + "attn_row.k.weight"@,
        ),
        mapped_name("layers."@ + (text::decimal(n) + "."@ + "attention1.k.bias"@)) == Some(
            "blk."@ + text::decimal(n) + "."@ + "attn_row.k.bias"@,
        ),
        mapped_name("layers."@ + (text::decimal(n) + "."@ + "attention1.v.weight"@)) == Some(
            "blk."@ + text::decimal(n) + "."@ + "attn_row.v.weight"@,
        ),
        mapped_name("layers."@ + (text::decimal(n) + "."@ + "attention1.v.bias"@)) == Some(
            "blk."@ + text::decimal(n) + "."@ + "attn_row.v.bias"@,
        ),
        mapped_name("layers."@ + (text::decimal(n) + "."@ + "attention1.o.weight"@)) == Some(
            "blk."@ + text::decimal(n) + "."@ + "attn_row.o.weight"@,
        ),
        mapped_name("layers."@ + (text::decimal(n) + "."@ + "attention1.o.bias"@)) == Some(
            "blk."@ + text::decimal(n) + "."@ + "attn_row.o.bias"@,
        ),
        mapped_name("layers."@ + (text::decimal(n) + "."@ + "attention2.q.weight"@)) == Some(
            "blk."@ + text::decimal(n) + "."@ + "attn_feat.q.weight"@,
        ),
        mapped_name("layers."@ + (text::decimal(n) + "."@ + "attention2.q.bias"@)) == Some(
            "blk."@ + text::decimal(n) + "."@ + "attn_feat.q.bias"@,
        ),
        mapped_name("layers."@ + (text::decimal(n) + "."@ + "attention2.k.weight"@)) == Some(
            "blk."@ + text::decimal(n) + "."@ + "attn_feat.k.weight"@,
        ),
        mapped_name("layers."@ + (text::decimal(n) + "."@ + "attention2.k.bias"@)) == Some(
            "blk."@ + text::decimal(n) + "."@ + "attn_feat.k.bias"@,
        ),
        mapped_name("layers."@ + (text::decimal(n) + "."@ + "attention2.v.weight"@)) == Some(
            "blk."@ + text::decimal(n) + "."@ + "attn_feat.v.weight"@,
        ),
        mapped_name("layers."@ + (text::decimal(n) + "."@ + "attention2.v.bias"@)) == Some(
            "blk."@ + text::decimal(n) + "."@ + "attn_feat.v.bias"@,
        ),
        mapped_name("layers."@ + (text::decimal(n) + "."@ + "attention2.o.weight"@)) == Some(
            "blk."@ + text::decimal(n) + "."@ + "attn_feat.o.weight"@,
        ),
        mapped_name("layers."@ + (text::decimal(n) + "."@ + "attention2.o.bias"@)) == Some(
            "blk."@ + text::decimal(n) + "."@ + "attn_feat.o.bias"@,
        ),
        mapped_name("layers."@ + (text::decimal(n) + "."@ + "linear1.weight"@)) == Some(
            "blk."@ + text::decimal(n) + "."@ + "mlp1_fc1.weight"@,
        ),
        mapped_name("layers."@ + (text::decimal(n) + "."@ + "linear1.bias"@)) == Some(
            "blk."@ + text::decimal(n) + "."@ + "mlp1_fc1.bias"@,
        ),
        mapped_name("layers."@ + (text::decimal(n) + "."@ + "linear2.weight"@)) == Some(
            "blk."@ + text::decimal(n) + "."@ + "mlp1_fc2.weight"@,
        ),
        mapped_name("layers."@ + (text::decimal(n) + "."@ + "linear2.bias"@)) == Some(
            "blk."@ + text::decimal(n) + "."@ + "mlp1_fc2.bias"@,
        ),
        mapped_name("layers."@ + (text::decimal(n) + "."@ + "linear3.weight"@)) == Some(
            "blk."@ + text::decimal(n) + "."@ + "mlp2_fc1.weight"@,
        ),
        mapped_name("layers."@ + (text::decimal(n) + "."@ + "linear3.bias"@)) == Some(
            "blk."@ + text::decimal(n) + "."@ + "mlp2_fc1.bias"@,
        ),
        mapped_name("layers."@ + (text::decimal(n) + "."@ + "linear4.weight"@)) == Some(
            "blk."@ + text::decimal(n) + "."@ + "mlp2_fc2.weight"@,
        ),
        mapped_name("layers."@ + (text::decimal(n) + "."@ + "linear4.bias"@)) == Some(
            "blk."@ + text::decimal(n) + "."@ + "mlp2_fc2.bias"@,
        ),
{
    lemma_block_leaves_listed();
    law_blocks_keep_numbers(n, "layer_norm1.weight"@);
    law_blocks_keep_numbers(n, "layer_norm1.bias"@);
    law_blocks_keep_numbers(n, "layer_norm2.weight"@);
    law_blocks_keep_numbers(n, "layer_norm2.bias"@);
    law_blocks_keep_numbers(n, "layer_norm3.weight"@);
    law_blocks_keep_numbers(n, "layer_norm3.bias"@);
    law_blocks_keep_numbers(n, "layer_norm4.weight"@);
    law_blocks_keep_numbers(n, "layer_norm4.bias"@);
    law_blocks_keep_numbers(n, "attention1.q.weight"@);
    law_blocks_keep_numbers(n, "attention1.q.bias"@);
    law_blocks_keep_numbers(n, "attention1.k.weight"@);
    law_blocks_keep_numbers(n, "attention1.k.bias"@);
    law_blocks_keep_numbers(n, "attention1.v.weight"@);
    law_blocks_keep_numbers(n, "attention1.v.bias"@);
    law_blocks_keep_numbers(n, "attention1.o.weight"@);
    law_blocks_keep_numbers(n, "attention1.o.bias"@);
    law_blocks_keep_numbers(n, "attention2.q.weight"@);
    law_blocks_keep_numbers(n, "attention2.q.bias"@);
    law_blocks_keep_numbers(n, "attention2.k.weight"@);
    law_blocks_keep_numbers(n, "attention2.k.bias"@);
    law_blocks_keep_numbers(n, "attention2.v.weight"@);
    law_blocks_keep_numbers(n, "attention2.v.bias"@);
    law_blocks_keep_numbers(n, "attention2.o.weight"@);
    law_blocks_keep_numbers(n, "attention2.o.bias"@);
    law_blocks_keep_numbers(n, "linear1.weight"@);
    law_blocks_keep_numbers(n, "linear1.bias"@);
    law_blocks_keep_numbers(n, "linear2.weight"@);
    law_blocks_keep_numbers(n, "linear2.bias"@);
    law_blocks_keep_numbers(n, "linear3.weight"@);
    law_blocks_keep_numbers(n, "linear3.bias"@);
    law_blocks_keep_numbers(n, "linear4.weight"@);
    law_blocks_keep_numbers(n, "linear4.bias"@);
}

/// No other tensor has a name: it stands outside the blocks, or it is one of those of a block.
pub proof fn law_nothing_else_is_named(name: Seq<char>)
    requires
        mapped_name(name) is Some,
    ensures
        ({
            ||| name == "final_layer.weight"@
            ||| name == "final_layer.bias"@
            ||| name == "final_layer_norm.weight"@
            ||| name == "final_layer_norm.bias"@
            ||| name == "x_embedding.x_embedding.weight"@
            ||| name == "x_embedding.x_embedding.bias"@
            ||| name == "y_embedding.y_embedding.weight"@
            ||| name == "y_embedding.y_embedding.bias"@
            ||| name == "y_embedding.y_mask.weight"@
            ||| text::has_prefix(name, "layers."@) && ({
                ||| text::has_suffix(name, "layer_norm1.weight"@)
                ||| text::has_suffix(name, "layer_norm1.bias"@)
                ||| text::has_suffix(name, "layer_norm2.weight"@)
                ||| text::has_suffix(name, "layer_norm2.bias"@)
                ||| text::has_suffix(name, "layer_norm3.weight"@)
                ||| text::has_suffix(name, "layer_norm3.bias"@)
                ||| text::has_suffix(name, "layer_norm4.weight"@)
                ||| text::has_suffix(name, "layer_norm4.bias"@)
                ||| text::has_suffix(name, "attention1.q.weight"@)
                ||| text::has_suffix(name, "attention1.q.bias"@)
                ||| text::has_suffix(name, "attention1.k.weight"@)
                ||| text::has_suffix(name, "attention1.k.bias"@)
                ||| text::has_suffix(name, "attention1.v.weight"@)
                ||| text::has_suffix(name, "attention1.v.bias"@)
                ||| text::has_suffix(name, "attention1.o.weight"@)
                ||| text::has_suffix(name, "attention1.o.bias"@)
                ||| text::has_suffix(name, "attention2.q.weight"@)
                ||| text::has_suffix(name, "attention2.q.bias"@)
                ||| text::has_suffix(name, "attention2.k.weight"@)
                ||| text::has_suffix(name, "attention2.k.bias"@)
                ||| text::has_suffix(name, "attention2.v.weight"@)
                ||| text::has_suffix(name, "attention2.v.bias"@)
                ||| text::has_suffix(name, "attention2.o.weight"@)
                ||| text::has_suffix(name, "attention2.o.bias"@)
                ||| text::has_suffix(name, "linear1.weight"@)
                ||| text::has_suffix(name, "linear1.bias"@)
                ||| text::has_suffix(name, "linear2.weight"@)
                ||| text::has_suffix(name, "linear2.bias"@)
                ||| text::has_suffix(name, "linear3.weight"@)
                ||| text::has_suffix(name, "linear3.bias"@)
                ||| text::has_suffix(name, "linear4.weight"@)
                ||| text::has_suffix(name, "linear4.bias"@)
            })
        }),
{
    if top_level(name) is None {
        let rest = text::without_prefix(name, "layers."@);
        let (_n, leaf) = names::numbered(rest, u32::MAX as nat)->0;
        names::lemma_numbered_ends(name, "layers."@, u32::MAX as nat);
        assert(block_leaf(leaf) is Some);
    }
}

/// A configuration says what it says, and the rest is as published: one output for numbers, ten for
/// classes.
pub proof fn law_members_are_taken(
    task: MemberView,
    dim: MemberView,
    n_layers: MemberView,
    n_heads: MemberView,
    dim_output: MemberView,
)
    ensures
        ({
            let c = config_of(task, dim, n_layers, n_heads, dim_output);
            &&& c.task == Task::Regression <==> task.text == Some("REGRESSION"@)
            &&& dim.unsigned matches Some(v) ==> c.dim == v as usize
            &&& dim.unsigned is None ==> c.dim == 512
            &&& n_layers.unsigned matches Some(v) ==> c.n_layers == v as usize
            &&& n_layers.unsigned is None ==> c.n_layers == 12
            &&& n_heads.unsigned matches Some(v) ==> c.n_heads == v as usize
            &&& n_heads.unsigned is None ==> c.n_heads == 4
            &&& dim_output.unsigned matches Some(v) ==> c.dim_output == v as usize
            &&& dim_output.unsigned is None && c.task == Task::Regression ==> c.dim_output == 1
            &&& dim_output.unsigned is None && c.task == Task::Classification ==> c.dim_output == 10
        }),
{
}

/// A regression is one that says so, and everything else is a classification; a number that is not
/// given is the default.
pub proof fn law_tasks_and_defaults(m: MemberView, default: usize)
    ensures
        m.text == Some("REGRESSION"@) ==> task_of(m) == Task::Regression,
        m.text is None ==> task_of(m) == Task::Classification,
        m.text matches Some(t) ==> (t != "REGRESSION"@ ==> task_of(m) == Task::Classification),
        m.unsigned is None ==> number_or(m, default) == default,
        m.unsigned matches Some(v) ==> (v <= usize::MAX ==> number_or(m, default) == v),
{
}

} // verus!
