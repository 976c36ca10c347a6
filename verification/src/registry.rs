//! The migration registry: the ordered collection of descriptors known at
//! startup. Registration order is execution order, and names are unique —
//! a duplicate is a configuration error, reported at registration time and
//! never silently deduplicated.

use vstd::prelude::*;

use crate::migration::Migration;
use crate::progress::distinct;

verus! {

/// Rejected registrations.
#[derive(Debug, PartialEq, Eq, Structural, Clone, Copy)]
pub enum RegistryError {
    /// A descriptor with the same name is already registered.
    DuplicateName,
}

/// An ordered sequence of migration descriptors with pairwise-distinct names.
///
/// In production a registry is populated once, before the first tick, and
/// never mutated again; a test populates one with scripted descriptors and
/// injects it into the scheduler it builds. Each descriptor's name is asked
/// for once, at registration, and kept beside it.
pub struct Registry<M: Migration> {
    migrations: Vec<M>,
    names: Vec<String>,
}

impl<M: Migration> Registry<M> {
    /// The registered descriptors, in registration order.
    pub closed spec fn descriptors(&self) -> Seq<M> {
        self.migrations@
    }

    /// The names kept beside the descriptors at registration time.
    pub closed spec fn stored_names(&self) -> Seq<String> {
        self.names@
    }

    /// The registered names, in registration order.
    pub open spec fn names(&self) -> Seq<Seq<char>> {
        self.descriptors().map_values(|m: M| m.name_spec())
    }

    /// Names are pairwise distinct.
    pub open spec fn unique_names(&self) -> bool {
        distinct(self.names())
    }

    /// Names are distinct and the stored name of each descriptor is its own.
    pub closed spec fn wf(&self) -> bool {
        &&& self.unique_names()
        &&& self.names@.len() == self.migrations@.len()
        &&& forall|i: int|
            0 <= i < self.names@.len() ==> self.names@[i]@ == self.names()[i]
    }

    /// A well-formed registry has pairwise-distinct names.
    pub proof fn wf_implies_unique(&self)
        requires
            self.wf(),
        ensures
            self.unique_names(),
    {
    }

    /// An empty registry.
    pub fn new() -> (r: Registry<M>)
        ensures
            r.descriptors() == Seq::<M>::empty(),
            r.wf(),
    {
        let r = Registry { migrations: Vec::new(), names: Vec::new() };
        proof {
            assert(r.names() =~= Seq::<Seq<char>>::empty());
        }
        r
    }

    /// Append `descriptor` to the execution order, unless a descriptor with
    /// the same name is already registered; a duplicate is reported and the
    /// registry is left as it was. Asks the descriptor for its name once.
    #[verifier::loop_isolation(false)]
    pub fn register(&mut self, descriptor: M) -> (r: Result<(), RegistryError>)
        requires
            old(self).wf(),
        ensures
            final(self).wf(),
            match r {
                Ok(()) => {
                    &&& !old(self).names().contains(descriptor.name_spec())
                    &&& final(self).names() == old(self).names().push(descriptor.name_spec())
                    &&& final(self).descriptors().len() == old(self).descriptors().len() + 1
                    &&& final(self).descriptors().take(old(self).descriptors().len() as int)
                        == old(self).descriptors()
                    &&& final(self).descriptors().last().name_spec() == descriptor.name_spec()
                    &&& final(self).descriptors().last().steps_taken() == descriptor.steps_taken()
                    &&& final(self).descriptors().last().planned_cost() == descriptor.planned_cost()
                    &&& final(self).descriptors().last().pre_verdict() == descriptor.pre_verdict()
                    &&& final(self).descriptors().last().post_verdict() == descriptor.post_verdict()
                },
                Err(RegistryError::DuplicateName) => {
                    &&& old(self).names().contains(descriptor.name_spec())
                    &&& *final(self) == *old(self)
                },
            },
    {
        let mut descriptor = descriptor;
        let candidate = descriptor.friendly_name();
        let n = self.names.len();
        let mut i: usize = 0;
        while i < n
            invariant
                0 <= i <= n,
                *self == *old(self),
                old(self).wf(),
                n == self.names@.len(),
                candidate@ == descriptor.name_spec(),
                forall|j: int| 0 <= j < i ==> self.names()[j] != candidate@,
            decreases n - i,
        {
            if self.names[i].eq(&candidate) {
                assert(self.names()[i as int] == candidate@);
                return Err(RegistryError::DuplicateName);
            }
            i += 1;
        }
        let ghost pre = *self;
        self.migrations.push(descriptor);
        self.names.push(candidate);
        proof {
            assert(self.names() =~= pre.names().push(descriptor.name_spec()));
            assert(self.descriptors().take(pre.descriptors().len() as int)
                =~= pre.descriptors());
        }
        Ok(())
    }

    /// Mutably borrow the descriptor at position `i`, so that the scheduler
    /// can run it. The registry stays well formed provided the borrower
    /// leaves the descriptor's name as it was — which every method of
    /// `Migration` promises.
    pub fn descriptor_mut(&mut self, i: usize) -> (r: &mut M)
        requires
            old(self).wf(),
            i < old(self).descriptors().len(),
        ensures
            *r == old(self).descriptors()[i as int],
            final(self).descriptors() == old(self).descriptors().update(i as int, *final(r)),
            final(self).stored_names() == old(self).stored_names(),
    {
        &mut self.migrations[i]
    }

    /// Re-establishes well-formedness after a descriptor has been run in
    /// place: a mutation that leaves the descriptor's name as it was leaves
    /// the registry's names, and their distinctness, as they were.
    pub proof fn lemma_wf_after_update(pre: Registry<M>, post: Registry<M>, i: int, m: M)
        requires
            pre.wf(),
            0 <= i < pre.descriptors().len(),
            post.descriptors() == pre.descriptors().update(i, m),
            post.stored_names() == pre.stored_names(),
            m.name_spec() == pre.descriptors()[i].name_spec(),
        ensures
            post.wf(),
            post.names() == pre.names(),
    {
        assert(post.names() =~= pre.names());
    }

    /// Borrow the registered descriptors, in registration order.
    pub fn all(&self) -> (r: &Vec<M>)
        ensures
            r@ == self.descriptors(),
    {
        &self.migrations
    }

    /// Borrow the name of the descriptor at position `i` without asking the
    /// descriptor again.
    pub fn name_at(&self, i: usize) -> (r: &String)
        requires
            self.wf(),
            i < self.descriptors().len(),
        ensures
            r@ == self.names()[i as int],
    {
        &self.names[i]
    }

    /// How many descriptors are registered.
    pub fn len(&self) -> (r: usize)
        ensures
            r == self.descriptors().len(),
    {
        self.migrations.len()
    }
}

} // verus!
