//! The models: configurations, tensor names, and the integer side of inference.

use vstd::prelude::*;

pub mod flowstate;
pub mod lag_llama;
pub mod mitra;
pub mod moirai;
pub mod moirai2;
pub mod moment;
pub mod moment_infer;
pub mod names;
pub mod tabdpt;
pub mod tabfm;
pub mod tabfm_infer;
pub mod table_weights;
pub mod tabicl;
pub mod tabpfn;
pub mod tabular;
pub mod timesfm;
pub mod tirex;
pub mod tirex_convert;
pub mod toto;
pub mod toto_infer;
pub mod ttm;
pub mod weights;

verus! {

} // verus!
