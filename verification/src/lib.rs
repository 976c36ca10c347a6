//! An upgrade migration engine: a resumable, budget-aware runner for named,
//! one-time data-migration steps, driven once per block by a host runtime.
//!
//! The engine keeps a durable ledger of the migrations that have already run,
//! executes the outstanding ones in registration order under a per-tick weight
//! budget, tolerates overruns rather than stalling the upgrade, and emits an
//! ordered log of lifecycle events. A verification harness can snapshot state
//! before an upgrade and check it afterwards, outside normal block production.

pub mod cleanup;
pub mod event;
pub mod harness;
pub mod ledger;
pub mod migration;
pub mod progress;
pub mod registry;
pub mod scheduler;

use vstd::prelude::*;

verus! {

/// A weight is the abstract cost unit a block's finite capacity is measured in.
pub type Weight = u64;

} // verus!
