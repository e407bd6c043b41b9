//! Toto 2: configuration.

use vstd::prelude::*;

verus! {

/// The architecture of Toto 2, as a conversion needs it.
#[derive(Clone, Copy, Debug)]
pub struct TotoConfig {
    pub num_hidden_layers: u32,
    pub hidden_size: u32,
    pub num_attention_heads: u32,
    pub num_key_value_heads: u32,
    pub head_dim: u32,
    pub patch_size: u32,
    pub num_quantiles: u32,
}

impl TotoConfig {
    /// What holds where a configuration file is silent.
    pub fn default_values() -> (r: Self)
        ensures
            r.num_hidden_layers == 48,
            r.hidden_size == 2048,
            r.num_attention_heads == 32,
            r.num_key_value_heads == 32,
            r.head_dim == 64,
            r.patch_size == 32,
            r.num_quantiles == 9,
    {
        TotoConfig {
            num_hidden_layers: 48,
            hidden_size: 2048,
            num_attention_heads: 32,
            num_key_value_heads: 32,
            head_dim: 64,
            patch_size: 32,
            num_quantiles: 9,
        }
    }
}

} // verus!
