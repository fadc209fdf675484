//! Host telemetry collection: process enumeration, resource sampling and
//! host identity, normalized into one canonical schema.
//!
//! The platform backends feed raw counter vectors and virtual-file
//! contents into this verified core; everything that decides or computes
//! lives here. CPU utilization is derived by the delta sampling cache in
//! `sampler`; the byte parsers live in `text` and `procfs`; `counters`
//! decodes the packed OS structures; `resources`, `identity` and
//! `process` assemble the canonical snapshots; `fallback` is the
//! unsupported-host backend that never fails.

pub mod counters;
pub mod fallback;
pub mod identity;
pub mod model;
pub mod percent;
pub mod process;
pub mod procfs;
pub mod resources;
pub mod sampler;
pub mod text;

use vstd::prelude::*;

verus! {

/// Percentages are carried in hundredths of a percent, so a full scale of
/// one hundred percent is represented as ten thousand.
pub const PERCENT_SCALE: u32 = 10000;

} // verus!
