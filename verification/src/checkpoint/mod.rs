//! Checkpoints: number formats, the ONNX wire format, tensor files, and what a conversion does
//! with them.

use vstd::prelude::*;

pub mod cast;
pub mod detect;
pub mod elements;
pub mod keras;
pub mod meta;
pub mod num;
pub mod onnx;
pub mod pickle;
pub mod proto;
pub mod read;
pub mod recast;
pub mod safetensors_file;
pub mod shards;

verus! {

} // verus!
