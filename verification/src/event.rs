//! Lifecycle events the scheduler emits while it runs, in order, so that
//! consumers can reconstruct upgrade progress from the log alone.

use vstd::prelude::*;

use crate::Weight;

verus! {

/// One entry of the scheduler's event log.
///
/// Every tick emits `UpgradeCycleStarted` first and `UpgradeCycleCompleted`
/// last; in between, each migration executed during that tick contributes a
/// `MigrationStarted` / `MigrationCompleted` pair.
#[derive(PartialEq, Eq, Clone)]
pub enum Event {
    UpgradeCycleStarted,
    MigrationStarted { name: String },
    MigrationCompleted { name: String, consumed: Weight },
    UpgradeCycleCompleted { weight: Weight },
}

/// Holds when `e` announces that the migration called `name` is starting.
pub open spec fn is_migration_started(e: Event, name: Seq<char>) -> bool {
    e matches Event::MigrationStarted { name: n } && n@ == name
}

/// Holds when `e` records that the migration called `name` has completed,
/// whatever cost it reported.
pub open spec fn is_migration_completed(e: Event, name: Seq<char>) -> bool {
    e matches Event::MigrationCompleted { name: n, consumed: _ } && n@ == name
}

/// The cost recorded in a `MigrationCompleted` event, and zero for any other.
pub open spec fn consumed_of(e: Event) -> Weight {
    match e {
        Event::MigrationCompleted { name: _, consumed } => consumed,
        _ => 0u64,
    }
}

/// Addition that stops at the largest weight instead of wrapping.
pub open spec fn sat_add(a: Weight, b: Weight) -> Weight {
    if a + b > u64::MAX {
        u64::MAX
    } else {
        (a + b) as u64
    }
}

/// From position `base` of the log `evs` on, the names `out` each contribute
/// a `MigrationStarted` / `MigrationCompleted` pair, in the order of `out`.
pub open spec fn migration_pairs_ok(evs: Seq<Event>, base: int, out: Seq<Seq<char>>) -> bool {
    forall|j: int|
        0 <= j < out.len() ==> is_migration_started(evs[base + 2 * j], out[j])
            && is_migration_completed(evs[base + 2 * j + 1], out[j])
}

/// The weight a tick has charged after `count` migration pairs starting at
/// position `base` of the log: the fixed overhead plus the cost each
/// `MigrationCompleted` event records, accumulated left to right without
/// wrapping.
pub open spec fn charged_total(evs: Seq<Event>, base: int, count: int, overhead: Weight) -> Weight
    decreases count,
{
    if count <= 0 {
        overhead
    } else {
        sat_add(
            charged_total(evs, base, count - 1, overhead),
            consumed_of(evs[base + 2 * (count - 1) + 1]),
        )
    }
}

/// A log that extends `evs1` keeps every event pair `evs1` holds.
pub proof fn lemma_pairs_preserved(evs1: Seq<Event>, evs2: Seq<Event>, base: int, out: Seq<Seq<char>>)
    requires
        migration_pairs_ok(evs1, base, out),
        0 <= base,
        base + 2 * out.len() <= evs1.len(),
        evs1.len() <= evs2.len(),
        forall|idx: int| 0 <= idx < evs1.len() ==> evs1[idx] == evs2[idx],
    ensures
        migration_pairs_ok(evs2, base, out),
{
    assert forall|j: int| 0 <= j < out.len() implies is_migration_started(
        evs2[base + 2 * j],
        out[j],
    ) && is_migration_completed(evs2[base + 2 * j + 1], out[j]) by {
        assert(is_migration_started(evs1[base + 2 * j], out[j]));
        assert(is_migration_completed(evs1[base + 2 * j + 1], out[j]));
    }
}

/// `charged_total` reads only the log positions of its `count` pairs: a log
/// that agrees there — however it goes on afterwards — charges the same.
pub proof fn lemma_charged_total_stable(
    evs1: Seq<Event>,
    evs2: Seq<Event>,
    base: int,
    count: int,
    overhead: Weight,
)
    requires
        forall|k: int| base <= k < base + 2 * count ==> evs1[k] == evs2[k],
    ensures
        charged_total(evs1, base, count, overhead) == charged_total(evs2, base, count, overhead),
    decreases count,
{
    if count > 0 {
        lemma_charged_total_stable(evs1, evs2, base, count - 1, overhead);
    }
}

} // verus!
