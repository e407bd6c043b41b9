//! TiRex: configuration.

use vstd::prelude::*;

verus! {

/// The architecture of TiRex.
#[derive(Clone, Debug)]
pub struct TiRexConfig {
    pub patch_size: usize,
    pub num_blocks: usize,
    pub embedding_dim: usize,
    pub num_heads: usize,
    pub input_ff_dim: usize,
    pub ffn_up_dim: usize,
    pub train_ctx_len: usize,
    /// Held as the bits of 32-bit floating-point numbers.
    pub quantiles: Vec<u32>,
    pub num_quantiles: usize,
}

impl TiRexConfig {
    /// The published checkpoint.
    pub fn default_from_ckpt() -> (r: Self)
        ensures
            r.patch_size == 32,
            r.num_blocks == 12,
            r.embedding_dim == 512,
            r.num_heads == 4,
            r.input_ff_dim == 2048,
            r.ffn_up_dim == 1408,
            r.train_ctx_len == 2048,
            r.quantiles@ == deciles(),
            r.num_quantiles == 9,
    {
        TiRexConfig {
            patch_size: 32,
            num_blocks: 12,
            embedding_dim: 512,
            num_heads: 4,
            input_ff_dim: 2048,
            ffn_up_dim: 1408,
            train_ctx_len: 2048,
            quantiles: decile_levels(),
            num_quantiles: 9,
        }
    }

    /// Width of one attention head.
    pub fn head_dim(&self) -> (r: usize)
        requires
            self.num_heads > 0,
        ensures
            r == self.embedding_dim / self.num_heads,
    {
        self.embedding_dim / self.num_heads
    }

    /// Number of patches in the training context.
    pub fn num_patches(&self) -> (r: usize)
        requires
            self.patch_size > 0,
        ensures
            r == self.train_ctx_len / self.patch_size,
    {
        self.train_ctx_len / self.patch_size
    }

    /// Number of outputs of one patch.
    pub fn output_dim(&self) -> (r: usize)
        requires
            self.num_quantiles * self.patch_size <= usize::MAX,
        ensures
            r == self.num_quantiles * self.patch_size,
    {
        self.num_quantiles * self.patch_size
    }

    /// Number of inputs of one patch: its values and their mask.
    pub fn input_dim(&self) -> (r: usize)
        requires
            self.patch_size * 2 <= usize::MAX,
        ensures
            r == self.patch_size * 2,
    {
        self.patch_size * 2
    }
}

/// The levels 0.1, 0.2, .., 0.9 as the bits of 32-bit floating-point numbers.
pub open spec fn deciles() -> Seq<u32> {
    seq![
        0x3dcc_cccdu32,
        0x3e4c_cccdu32,
        0x3e99_999au32,
        0x3ecc_cccdu32,
        0x3f00_0000u32,
        0x3f19_999au32,
        0x3f33_3333u32,
        0x3f4c_cccdu32,
        0x3f66_6666u32,
    ]
}

/// The levels 0.1, 0.2, .., 0.9.
pub fn decile_levels() -> (r: Vec<u32>)
    ensures
        r@ == deciles(),
{
    let r: Vec<u32> = vec![
        0x3dcc_cccd,
        0x3e4c_cccd,
        0x3e99_999a,
        0x3ecc_cccd,
        0x3f00_0000,
        0x3f19_999a,
        0x3f33_3333,
        0x3f4c_cccd,
        0x3f66_6666,
    ];
    assert(r@ =~= deciles());
    r
}

/// The nine deciles, from a tenth to nine tenths.
pub proof fn law_deciles()
    ensures
        deciles().len() == 9,
        deciles()[0] == 0x3dcc_cccdu32,
        deciles()[1] == 0x3e4c_cccdu32,
        deciles()[2] == 0x3e99_999au32,
        deciles()[3] == 0x3ecc_cccdu32,
        deciles()[4] == 0x3f00_0000u32,
        deciles()[5] == 0x3f19_999au32,
        deciles()[6] == 0x3f33_3333u32,
        deciles()[7] == 0x3f4c_cccdu32,
        deciles()[8] == 0x3f66_6666u32,
{
}

} // verus!
