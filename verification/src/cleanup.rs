//! Bounded-batch cleanup of legacy storage: an authorized caller removes up
//! to a caller-supplied number of leftover entries in one explicit call. A
//! call that removes nothing is a failure, not a silent no-op, so operators
//! can detect stale automation.

use vstd::prelude::*;

verus! {

/// Who is asking. Only a signed caller may clear legacy entries.
#[derive(PartialEq, Eq, Structural, Clone, Copy)]
pub enum Origin {
    /// A transaction signed by the account given.
    Signed(u64),
    /// The runtime's root authority.
    Root,
    /// No authority at all.
    Unsigned,
}

/// Rejected cleanup calls.
#[derive(Debug, PartialEq, Eq, Structural, Clone, Copy)]
pub enum CleanupError {
    /// The caller is not a signed account.
    BadOrigin,
    /// The call removed nothing: no entries remain, or the limit was zero.
    NothingRemoved,
}

/// The legacy entries still on disk, in storage order: keyed byte blobs left
/// behind by a retired subsystem, kept only until an operator clears them.
pub struct LegacyStore {
    entries: Vec<(Vec<u8>, Vec<u8>)>,
}

impl View for LegacyStore {
    type V = Seq<(Seq<u8>, Seq<u8>)>;

    closed spec fn view(&self) -> Seq<(Seq<u8>, Seq<u8>)> {
        self.entries@.map_values(|e: (Vec<u8>, Vec<u8>)| (e.0@, e.1@))
    }
}

impl LegacyStore {
    /// A store with no entries left.
    pub fn new() -> (r: LegacyStore)
        ensures
            r@ == Seq::<(Seq<u8>, Seq<u8>)>::empty(),
    {
        let r = LegacyStore { entries: Vec::new() };
        proof {
            assert(r@ =~= Seq::<(Seq<u8>, Seq<u8>)>::empty());
        }
        r
    }

    /// Append an entry, as the retired subsystem once wrote it.
    pub fn set(&mut self, key: Vec<u8>, value: Vec<u8>)
        ensures
            final(self)@ == old(self)@.push((key@, value@)),
    {
        self.entries.push((key, value));
        proof {
            assert(self@ =~= old(self)@.push((key@, value@)));
        }
    }

    /// Whether an entry under `key` remains.
    #[verifier::loop_isolation(false)]
    pub fn contains_key(&self, key: &Vec<u8>) -> (r: bool)
        ensures
            r == exists|i: int| 0 <= i < self@.len() && self@[i].0 == key@,
    {
        let n = self.entries.len();
        let mut i: usize = 0;
        while i < n
            invariant
                0 <= i <= n,
                n == self@.len(),
                n == self.entries@.len(),
                forall|j: int| 0 <= j < i ==> self@[j].0 != key@,
            decreases n - i,
        {
            if Self::bytes_equal(&self.entries[i].0, key) {
                assert(self@[i as int].0 == key@);
                return true;
            }
            i += 1;
        }
        false
    }

    /// How many entries remain.
    pub fn len(&self) -> (r: usize)
        ensures
            r == self@.len(),
    {
        self.entries.len()
    }

    /// Remove up to `limit` entries, oldest first, under the caller's
    /// explicit bound. Fails with `BadOrigin` for any caller but a signed
    /// one, and with `NothingRemoved` when there was nothing to remove —
    /// because no entries remain or because the limit was zero. On success
    /// reports how many entries went, and exactly the first `removed`
    /// entries are gone.
    #[verifier::loop_isolation(false)]
    pub fn clear_legacy_entries(&mut self, origin: Origin, limit: u32) -> (r: Result<
        u32,
        CleanupError,
    >)
        ensures
            match r {
                Ok(removed) => {
                    &&& origin is Signed
                    &&& removed == if limit <= old(self)@.len() {
                        limit as int
                    } else {
                        old(self)@.len() as int
                    }
                    &&& removed > 0
                    &&& final(self)@ == old(self)@.skip(removed as int)
                },
                Err(CleanupError::BadOrigin) => {
                    &&& !(origin is Signed)
                    &&& *final(self) == *old(self)
                },
                Err(CleanupError::NothingRemoved) => {
                    &&& origin is Signed
                    &&& (limit == 0 || old(self)@.len() == 0)
                    &&& *final(self) == *old(self)
                },
            },
    {
        match origin {
            Origin::Signed(_) => (),
            _ => {
                return Err(CleanupError::BadOrigin);
            },
        }
        let n = self.entries.len();
        let goal: usize = if (limit as usize) <= n {
            limit as usize
        } else {
            n
        };
        if goal == 0 {
            return Err(CleanupError::NothingRemoved);
        }
        let ghost pre = self@;
        let tail = self.entries.split_off(goal);
        self.entries = tail;
        proof {
            assert(self@ =~= pre.skip(goal as int));
        }
        Ok(goal as u32)
    }

    /// Whether two byte strings hold the same bytes.
    #[verifier::loop_isolation(false)]
    fn bytes_equal(a: &Vec<u8>, b: &Vec<u8>) -> (r: bool)
        ensures
            r == (a@ == b@),
    {
        if a.len() != b.len() {
            proof {
                assert(a@ != b@);
            }
            return false;
        }
        let n = a.len();
        let mut i: usize = 0;
        while i < n
            invariant
                0 <= i <= n,
                n == a@.len() == b@.len(),
                forall|j: int| 0 <= j < i ==> a@[j] == b@[j],
            decreases n - i,
        {
            if a[i] != b[i] {
                return false;
            }
            i += 1;
        }
        proof {
            assert(a@ =~= b@);
        }
        true
    }
}

} // verus!
