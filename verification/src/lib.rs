//! Core logic of a workshop catalog crawler: download scheduling, item
//! assembly, upsert bookkeeping, inference gating, and the crowd-sourced
//! property/vote reconciler with its counter invariants.
use vstd::prelude::*;

pub mod assembly;
pub mod distance;
pub mod extraction;
pub mod item_update;
pub mod language;
pub mod model;
pub mod properties;
pub mod profiles;
pub mod scheduler;
pub mod size_hint;
pub mod steam;
pub mod text;
pub mod votes;

verus! {

/// The download scheduler triggers an immediate run when the newest stored
/// item is older than this many seconds (12 hours).
pub const DOWNLOAD_PERIOD_SECS: u64 = 43200;

} // verus!
