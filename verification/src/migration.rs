//! Migration descriptors: named, one-time units of upgrade work.
//!
//! A descriptor exposes a stable name, a bounded-step execution function that
//! reports the cost it incurred, and a pre/post pair of snapshot-verification
//! hooks that never run during normal block production.

use vstd::prelude::*;

use crate::Weight;

verus! {

/// Returned by a descriptor's `pre_check` or `post_check` when the invariant
/// it guards does not hold.
#[derive(Debug, PartialEq, Eq, Structural, Clone, Copy)]
pub struct CheckFailed;

/// A named unit of upgrade work.
///
/// `name_spec` is the descriptor's stable identity: it is unique across a
/// registry and never changes, whatever the descriptor's methods do to its
/// state. `steps_taken` counts, at the specification level, how often `step`
/// has run, so that callers can state — and the scheduler can prove — that a
/// completed migration is never executed again.
pub trait Migration: Sized {
    /// The descriptor's stable name.
    spec fn name_spec(&self) -> Seq<char>;

    /// How many times this descriptor's `step` has been invoked.
    spec fn steps_taken(&self) -> nat;

    /// The cost the next `step` call will report. In a deterministic runtime
    /// a migration's cost is a function of the state it is about to migrate,
    /// so a descriptor can say it up front; only `step` itself may change it.
    spec fn planned_cost(&self) -> Weight;

    /// Whether this descriptor's pre-upgrade invariant holds of its current
    /// state: the verdict `pre_check` reports. Only `step` may change it.
    spec fn pre_verdict(&self) -> bool;

    /// Whether this descriptor's post-upgrade invariant holds of its current
    /// state: the verdict `post_check` reports. Only `step` may change it.
    spec fn post_verdict(&self) -> bool;

    /// The descriptor's name, for ledger membership and logging.
    fn friendly_name(&mut self) -> (r: String)
        ensures
            r@ == old(self).name_spec(),
            final(self).name_spec() == old(self).name_spec(),
            final(self).steps_taken() == old(self).steps_taken(),
            final(self).planned_cost() == old(self).planned_cost(),
            final(self).pre_verdict() == old(self).pre_verdict(),
            final(self).post_verdict() == old(self).post_verdict(),
    ;

    /// Perform the migration's work and report the cost incurred.
    ///
    /// `available_weight` is what remains of the tick's budget; a step may
    /// report more than that (the scheduler tolerates the overrun). A single
    /// invocation is expected to fully complete the migration.
    fn step(&mut self, available_weight: Weight) -> (consumed: Weight)
        ensures
            consumed == old(self).planned_cost(),
            final(self).name_spec() == old(self).name_spec(),
            final(self).steps_taken() == old(self).steps_taken() + 1,
    ;

    /// Snapshot whatever state the migration must preserve, or report that
    /// the pre-upgrade invariant already fails. Never performs upgrade work.
    fn pre_check(&mut self) -> (r: Result<Vec<u8>, CheckFailed>)
        ensures
            r is Ok <==> old(self).pre_verdict(),
            final(self).name_spec() == old(self).name_spec(),
            final(self).steps_taken() == old(self).steps_taken(),
            final(self).planned_cost() == old(self).planned_cost(),
            final(self).pre_verdict() == old(self).pre_verdict(),
            final(self).post_verdict() == old(self).post_verdict(),
    ;

    /// Check the post-upgrade state against the snapshot `pre_check` took.
    /// Never performs upgrade work.
    fn post_check(&mut self, snapshot: &Vec<u8>) -> (r: Result<(), CheckFailed>)
        ensures
            r is Ok <==> old(self).post_verdict(),
            final(self).name_spec() == old(self).name_spec(),
            final(self).steps_taken() == old(self).steps_taken(),
            final(self).planned_cost() == old(self).planned_cost(),
            final(self).pre_verdict() == old(self).pre_verdict(),
            final(self).post_verdict() == old(self).post_verdict(),
    ;
}

/// A descriptor whose behaviour is fixed up front: it reports a configured
/// cost from `step` and configured verdicts from its check hooks, and counts
/// every call it receives. Scenarios and tests register these in place of
/// production migrations and read the counters afterwards.
pub struct ScriptedMigration {
    /// The descriptor's stable name.
    pub name: String,
    /// The cost that every `step` call reports.
    pub reported_cost: Weight,
    /// The verdict `pre_check` returns.
    pub pre_ok: bool,
    /// The verdict `post_check` returns.
    pub post_ok: bool,
    /// How often `friendly_name` has been called.
    pub name_calls: u64,
    /// How often `step` has been called.
    pub step_calls: u64,
    /// How often `pre_check` has been called.
    pub pre_calls: u64,
    /// How often `post_check` has been called.
    pub post_calls: u64,
    /// The specification-level count of `step` calls, erased at run time.
    pub steps: Ghost<nat>,
}

impl ScriptedMigration {
    /// A descriptor called `name` whose `step` reports `reported_cost` and
    /// whose check hooks succeed.
    pub fn new(name: String, reported_cost: Weight) -> (r: ScriptedMigration)
        ensures
            r.name_spec() == name@,
            r.steps_taken() == 0,
            r.planned_cost() == reported_cost,
            r.pre_verdict() && r.post_verdict(),
            r.name_calls == 0 && r.step_calls == 0 && r.pre_calls == 0 && r.post_calls == 0,
    {
        ScriptedMigration {
            name,
            reported_cost,
            pre_ok: true,
            post_ok: true,
            name_calls: 0,
            step_calls: 0,
            pre_calls: 0,
            post_calls: 0,
            steps: Ghost(0),
        }
    }

    /// As `new`, but with the verdicts of the two check hooks chosen.
    pub fn with_check_results(name: String, reported_cost: Weight, pre_ok: bool, post_ok: bool)
        -> (r: ScriptedMigration)
        ensures
            r.name_spec() == name@,
            r.steps_taken() == 0,
            r.planned_cost() == reported_cost,
            r.pre_verdict() == pre_ok && r.post_verdict() == post_ok,
            r.name_calls == 0 && r.step_calls == 0 && r.pre_calls == 0 && r.post_calls == 0,
    {
        ScriptedMigration {
            name,
            reported_cost,
            pre_ok,
            post_ok,
            name_calls: 0,
            step_calls: 0,
            pre_calls: 0,
            post_calls: 0,
            steps: Ghost(0),
        }
    }
}

impl Migration for ScriptedMigration {
    closed spec fn name_spec(&self) -> Seq<char> {
        self.name@
    }

    closed spec fn steps_taken(&self) -> nat {
        self.steps@
    }

    closed spec fn planned_cost(&self) -> Weight {
        self.reported_cost
    }

    closed spec fn pre_verdict(&self) -> bool {
        self.pre_ok
    }

    closed spec fn post_verdict(&self) -> bool {
        self.post_ok
    }

    fn friendly_name(&mut self) -> (r: String)
        ensures
            r@ == old(self).name_spec(),
            final(self).name_spec() == old(self).name_spec(),
            final(self).steps_taken() == old(self).steps_taken(),
            final(self).planned_cost() == old(self).planned_cost(),
            final(self).pre_verdict() == old(self).pre_verdict(),
            final(self).post_verdict() == old(self).post_verdict(),
    {
        self.name_calls = self.name_calls.saturating_add(1);
        self.name.clone()
    }

    fn step(&mut self, available_weight: Weight) -> (consumed: Weight)
        ensures
            consumed == old(self).planned_cost(),
            final(self).name_spec() == old(self).name_spec(),
            final(self).steps_taken() == old(self).steps_taken() + 1,
    {
        self.step_calls = self.step_calls.saturating_add(1);
        self.steps = Ghost(self.steps@ + 1);
        self.reported_cost
    }

    fn pre_check(&mut self) -> (r: Result<Vec<u8>, CheckFailed>)
        ensures
            r is Ok <==> old(self).pre_verdict(),
            r matches Ok(snapshot) ==> snapshot@ == Seq::<u8>::empty(),
            final(self).name_spec() == old(self).name_spec(),
            final(self).steps_taken() == old(self).steps_taken(),
            final(self).planned_cost() == old(self).planned_cost(),
            final(self).pre_verdict() == old(self).pre_verdict(),
            final(self).post_verdict() == old(self).post_verdict(),
    {
        self.pre_calls = self.pre_calls.saturating_add(1);
        if self.pre_ok {
            Ok(Vec::new())
        } else {
            Err(CheckFailed)
        }
    }

    fn post_check(&mut self, snapshot: &Vec<u8>) -> (r: Result<(), CheckFailed>)
        ensures
            r is Ok <==> old(self).post_verdict(),
            final(self).name_spec() == old(self).name_spec(),
            final(self).steps_taken() == old(self).steps_taken(),
            final(self).planned_cost() == old(self).planned_cost(),
            final(self).pre_verdict() == old(self).pre_verdict(),
            final(self).post_verdict() == old(self).post_verdict(),
    {
        self.post_calls = self.post_calls.saturating_add(1);
        if self.post_ok {
            Ok(())
        } else {
            Err(CheckFailed)
        }
    }
}

} // verus!
