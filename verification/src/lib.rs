//! The verified core of a zero-shot foundation-model toolkit.

use vstd::prelude::*;

pub mod bench;
pub mod checkpoint;
pub mod ensemble;
pub mod float_bits;
pub mod json;
pub mod layout;
pub mod models;
pub mod text;

verus! {

} // verus!
