//! The verification harness: snapshot-and-check hooks layered over the same
//! registry the scheduler runs, invoked only in an explicit
//! consistency-checking mode, never during normal block production.
//!
//! `collect_pre_upgrade_state` runs every descriptor's `pre_check` and
//! aggregates the snapshots; `verify_post_upgrade_state` runs every
//! descriptor's `post_check` against its stored snapshot after the scheduler
//! has actually executed the migrations. A failure is reported with the
//! originating descriptor's name attached and never rolls anything back —
//! migrations are irreversible once committed to the ledger.

use vstd::prelude::*;

use crate::migration::Migration;
use crate::registry::Registry;
use crate::scheduler::UpgradeScheduler;

verus! {

/// A failed pre- or post-upgrade check, carrying the name of the descriptor
/// whose check failed.
#[derive(Debug, PartialEq, Eq, Clone)]
pub struct VerifyFailure {
    /// The name of the migration whose check failed.
    pub migration: String,
}

impl<M: Migration> UpgradeScheduler<M> {
    /// Run every descriptor's `pre_check`, in registration order, collecting
    /// one named snapshot per descriptor. The collection succeeds if and only
    /// if every descriptor's pre-upgrade verdict holds; otherwise it fails
    /// with the name of the first descriptor, in registration order, whose
    /// verdict does not.
    ///
    /// No migration work happens: every descriptor's step count is untouched,
    /// and ledger, log and policy stay as they were.
    pub fn collect_pre_upgrade_state(&mut self) -> (r: Result<
        Vec<(String, Vec<u8>)>,
        VerifyFailure,
    >)
        requires
            old(self).wf(),
        ensures
            final(self).wf(),
            final(self).names() == old(self).names(),
            final(self).completed() == old(self).completed(),
            final(self).log() == old(self).log(),
            final(self).cfg() == old(self).cfg(),
            final(self).descriptors().len() == old(self).descriptors().len(),
            forall|k: int|
                0 <= k < old(self).descriptors().len() ==> (#[trigger] final(self).descriptors()[k]).steps_taken()
                    == old(self).descriptors()[k].steps_taken() && (#[trigger] final(self).descriptors()[k]).planned_cost()
                    == old(self).descriptors()[k].planned_cost() && (#[trigger] final(self).descriptors()[k]).pre_verdict()
                    == old(self).descriptors()[k].pre_verdict() && (#[trigger] final(self).descriptors()[k]).post_verdict()
                    == old(self).descriptors()[k].post_verdict(),
            match r {
                Ok(snapshots) => {
                    &&& snapshots@.len() == old(self).names().len()
                    &&& forall|j: int|
                        0 <= j < snapshots@.len() ==> (#[trigger] snapshots@[j]).0@ == old(self).names()[j]
                    &&& forall|k: int|
                        0 <= k < old(self).descriptors().len() ==> (#[trigger] old(self).descriptors()[k]).pre_verdict()
                },
                Err(failure) => exists|k: int|
                    {
                        &&& 0 <= k < old(self).descriptors().len()
                        &&& failure.migration@ == old(self).names()[k]
                        &&& !(#[trigger] old(self).descriptors()[k]).pre_verdict()
                        &&& forall|j: int|
                            0 <= j < k ==> (#[trigger] old(self).descriptors()[j]).pre_verdict()
                    },
            },
    {
        Self::collect_pre_over(self.registry_mut())
    }

    /// Run every descriptor's `post_check` against its snapshot from
    /// `snapshots`, in registration order. The pass succeeds if and only if
    /// every descriptor's post-upgrade verdict holds; otherwise it fails with
    /// the name of the first descriptor, in registration order, whose verdict
    /// does not.
    ///
    /// No migration work happens: every descriptor's step count is untouched,
    /// and ledger, log and policy stay as they were.
    pub fn verify_post_upgrade_state(&mut self, snapshots: &Vec<(String, Vec<u8>)>) -> (r: Result<
        (),
        VerifyFailure,
    >)
        requires
            old(self).wf(),
            snapshots@.len() == old(self).names().len(),
            forall|j: int|
                0 <= j < snapshots@.len() ==> (#[trigger] snapshots@[j]).0@ == old(self).names()[j],
        ensures
            final(self).wf(),
            final(self).names() == old(self).names(),
            final(self).completed() == old(self).completed(),
            final(self).log() == old(self).log(),
            final(self).cfg() == old(self).cfg(),
            final(self).descriptors().len() == old(self).descriptors().len(),
            forall|k: int|
                0 <= k < old(self).descriptors().len() ==> (#[trigger] final(self).descriptors()[k]).steps_taken()
                    == old(self).descriptors()[k].steps_taken() && (#[trigger] final(self).descriptors()[k]).planned_cost()
                    == old(self).descriptors()[k].planned_cost() && (#[trigger] final(self).descriptors()[k]).pre_verdict()
                    == old(self).descriptors()[k].pre_verdict() && (#[trigger] final(self).descriptors()[k]).post_verdict()
                    == old(self).descriptors()[k].post_verdict(),
            match r {
                Ok(()) => forall|k: int|
                    0 <= k < old(self).descriptors().len() ==> (#[trigger] old(self).descriptors()[k]).post_verdict(),
                Err(failure) => exists|k: int|
                    {
                        &&& 0 <= k < old(self).descriptors().len()
                        &&& failure.migration@ == old(self).names()[k]
                        &&& !(#[trigger] old(self).descriptors()[k]).post_verdict()
                        &&& forall|j: int|
                            0 <= j < k ==> (#[trigger] old(self).descriptors()[j]).post_verdict()
                    },
            },
    {
        Self::verify_post_over(self.registry_mut(), snapshots)
    }

    /// As `collect_pre_upgrade_state`, over a bare registry.
    #[verifier::loop_isolation(false)]
    fn collect_pre_over(registry: &mut Registry<M>) -> (r: Result<
        Vec<(String, Vec<u8>)>,
        VerifyFailure,
    >)
        requires
            old(registry).wf(),
        ensures
            final(registry).wf(),
            final(registry).names() == old(registry).names(),
            final(registry).descriptors().len() == old(registry).descriptors().len(),
            forall|k: int|
                0 <= k < old(registry).descriptors().len() ==> (#[trigger] final(registry).descriptors()[k]).steps_taken() == old(registry).descriptors()[k].steps_taken()
                    && (#[trigger] final(registry).descriptors()[k]).planned_cost() == old(registry).descriptors()[k].planned_cost()
                    && (#[trigger] final(registry).descriptors()[k]).pre_verdict() == old(registry).descriptors()[k].pre_verdict()
                    && (#[trigger] final(registry).descriptors()[k]).post_verdict() == old(registry).descriptors()[k].post_verdict(),
            match r {
                Ok(snapshots) => {
                    &&& snapshots@.len() == old(registry).names().len()
                    &&& forall|j: int|
                        0 <= j < snapshots@.len() ==> (#[trigger] snapshots@[j]).0@ == old(registry).names()[j]
                    &&& forall|k: int|
                        0 <= k < old(registry).descriptors().len() ==> (#[trigger] old(registry).descriptors()[k]).pre_verdict()
                },
                Err(failure) => exists|k: int|
                    {
                        &&& 0 <= k < old(registry).descriptors().len()
                        &&& failure.migration@ == old(registry).names()[k]
                        &&& !(#[trigger] old(registry).descriptors()[k]).pre_verdict()
                        &&& forall|j: int|
                            0 <= j < k ==> (#[trigger] old(registry).descriptors()[j]).pre_verdict()
                    },
            },
    {
        let mut snapshots: Vec<(String, Vec<u8>)> = Vec::new();
        let n = registry.len();
        let mut i: usize = 0;
        while i < n
            invariant
                0 <= i <= n,
                registry.wf(),
                registry.names() == old(registry).names(),
                forall|k: int|
                    0 <= k < n ==> (#[trigger] registry.descriptors()[k]).steps_taken() == old(registry).descriptors()[k].steps_taken()
                        && (#[trigger] registry.descriptors()[k]).planned_cost() == old(registry).descriptors()[k].planned_cost()
                        && (#[trigger] registry.descriptors()[k]).pre_verdict() == old(registry).descriptors()[k].pre_verdict()
                        && (#[trigger] registry.descriptors()[k]).post_verdict() == old(registry).descriptors()[k].post_verdict(),
                snapshots@.len() == i,
                forall|j: int|
                    0 <= j < i ==> (#[trigger] snapshots@[j]).0@ == old(registry).names()[j],
                forall|j: int|
                    0 <= j < i ==> (#[trigger] old(registry).descriptors()[j]).pre_verdict(),
            decreases n - i,
        {
            let ghost reg_pre = *registry;
            let name = registry.descriptor_mut(i).friendly_name();
            proof {
                Registry::lemma_wf_after_update(
                    reg_pre,
                    *registry,
                    i as int,
                    registry.descriptors()[i as int],
                );
            }
            let ghost reg_mid = *registry;
            let checked = registry.descriptor_mut(i).pre_check();
            proof {
                Registry::lemma_wf_after_update(
                    reg_mid,
                    *registry,
                    i as int,
                    registry.descriptors()[i as int],
                );
            }
            match checked {
                Ok(snapshot) => {
                    snapshots.push((name, snapshot));
                },
                Err(_) => {
                    assert(registry.names()[i as int] == name@);
                    assert(!old(registry).descriptors()[i as int].pre_verdict());
                    return Err(VerifyFailure { migration: name });
                },
            }
            i += 1;
        }
        Ok(snapshots)
    }

    /// As `verify_post_upgrade_state`, over a bare registry.
    #[verifier::loop_isolation(false)]
    fn verify_post_over(registry: &mut Registry<M>, snapshots: &Vec<(String, Vec<u8>)>) -> (r:
        Result<(), VerifyFailure>)
        requires
            old(registry).wf(),
            snapshots@.len() == old(registry).names().len(),
        ensures
            final(registry).wf(),
            final(registry).names() == old(registry).names(),
            final(registry).descriptors().len() == old(registry).descriptors().len(),
            forall|k: int|
                0 <= k < old(registry).descriptors().len() ==> (#[trigger] final(registry).descriptors()[k]).steps_taken() == old(registry).descriptors()[k].steps_taken()
                    && (#[trigger] final(registry).descriptors()[k]).planned_cost() == old(registry).descriptors()[k].planned_cost()
                    && (#[trigger] final(registry).descriptors()[k]).pre_verdict() == old(registry).descriptors()[k].pre_verdict()
                    && (#[trigger] final(registry).descriptors()[k]).post_verdict() == old(registry).descriptors()[k].post_verdict(),
            match r {
                Ok(()) => forall|k: int|
                    0 <= k < old(registry).descriptors().len() ==> (#[trigger] old(registry).descriptors()[k]).post_verdict(),
                Err(failure) => exists|k: int|
                    {
                        &&& 0 <= k < old(registry).descriptors().len()
                        &&& failure.migration@ == old(registry).names()[k]
                        &&& !(#[trigger] old(registry).descriptors()[k]).post_verdict()
                        &&& forall|j: int|
                            0 <= j < k ==> (#[trigger] old(registry).descriptors()[j]).post_verdict()
                    },
            },
    {
        let n = registry.len();
        let mut i: usize = 0;
        while i < n
            invariant
                0 <= i <= n,
                registry.wf(),
                registry.names() == old(registry).names(),
                forall|k: int|
                    0 <= k < n ==> (#[trigger] registry.descriptors()[k]).steps_taken() == old(registry).descriptors()[k].steps_taken()
                        && (#[trigger] registry.descriptors()[k]).planned_cost() == old(registry).descriptors()[k].planned_cost()
                        && (#[trigger] registry.descriptors()[k]).pre_verdict() == old(registry).descriptors()[k].pre_verdict()
                        && (#[trigger] registry.descriptors()[k]).post_verdict() == old(registry).descriptors()[k].post_verdict(),
                forall|j: int|
                    0 <= j < i ==> (#[trigger] old(registry).descriptors()[j]).post_verdict(),
            decreases n - i,
        {
            let ghost reg_pre = *registry;
            let name = registry.descriptor_mut(i).friendly_name();
            proof {
                Registry::lemma_wf_after_update(
                    reg_pre,
                    *registry,
                    i as int,
                    registry.descriptors()[i as int],
                );
            }
            let ghost reg_mid = *registry;
            let checked = registry.descriptor_mut(i).post_check(&snapshots[i].1);
            proof {
                Registry::lemma_wf_after_update(
                    reg_mid,
                    *registry,
                    i as int,
                    registry.descriptors()[i as int],
                );
            }
            if checked.is_err() {
                assert(registry.names()[i as int] == name@);
                assert(!old(registry).descriptors()[i as int].post_verdict());
                return Err(VerifyFailure { migration: name });
            }
            i += 1;
        }
        Ok(())
    }
}

} // verus!
