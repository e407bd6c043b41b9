//! The rolling-window benchmark: what is run, on which windows, and how it is reported.

use vstd::prelude::*;

pub mod cache;
pub mod combine;
pub mod data;
pub mod date;
pub mod double;
pub mod ensemble;
pub mod model_id;
pub mod progress;
pub mod report;
pub mod rows;
pub mod setup;
pub mod table;
pub mod windows;

verus! {

} // verus!
