//! Acquisition pipeline for beatmap archives: mirror failover, the map store,
//! difficulty-id resolution and batch assembly, each stated and proved.
use vstd::prelude::*;

pub mod archive;
pub mod batch;
pub mod decimal;
pub mod download;
pub mod ids;
pub mod json;
pub mod mirrors;
pub mod resolve;
pub mod store;
pub mod token;

verus! {

} // verus!
