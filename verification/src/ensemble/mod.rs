//! Ensembling: member configurations and the random stream they are drawn from.

use vstd::prelude::*;

pub mod aggregate;
pub mod brent;
pub mod cat_encoder;
pub mod columns;
pub mod config_gen;
pub mod mt19937;
pub mod noise;
pub mod oof;
pub mod orchestrate;
pub mod pipeline;
pub mod pyrandom;
pub mod rejection;

verus! {

} // verus!
