//! The completion ledger: the durable record of which migrations have already
//! fully executed. Membership is monotonic during normal operation — names are
//! only ever added, never removed.

use vstd::prelude::*;

verus! {

/// The set of migration names that have finished, viewed as a `Set<Seq<char>>`.
///
/// The host persists this value across block boundaries and restarts; the
/// scheduler is its only writer, and only ever inserts.
pub struct CompletionLedger {
    completed: Vec<String>,
}

impl View for CompletionLedger {
    type V = Set<Seq<char>>;

    closed spec fn view(&self) -> Set<Seq<char>> {
        Set::new(|n: Seq<char>| exists|i: int|
            0 <= i < self.completed@.len() && self.completed@[i]@ == n)
    }
}

impl CompletionLedger {
    /// A ledger in which no migration is recorded as complete.
    pub fn new() -> (r: CompletionLedger)
        ensures
            r@ == Set::<Seq<char>>::empty(),
    {
        let r = CompletionLedger { completed: Vec::new() };
        proof {
            assert(r@ =~= Set::<Seq<char>>::empty());
        }
        r
    }

    /// Whether `name` is recorded as complete.
    pub fn contains(&self, name: &String) -> (r: bool)
        ensures
            r == self@.contains(name@),
    {
        let n = self.completed.len();
        let mut i: usize = 0;
        while i < n
            invariant
                0 <= i <= n,
                n == self.completed@.len(),
                forall|j: int| 0 <= j < i ==> self.completed@[j]@ != name@,
            decreases n - i,
        {
            if self.completed[i].eq(name) {
                return true;
            }
            i += 1;
        }
        false
    }

    /// Record `name` as complete. Recording a name twice leaves the ledger as
    /// it was: membership only ever grows.
    pub fn insert(&mut self, name: String)
        ensures
            final(self)@ == old(self)@.insert(name@),
    {
        if !self.contains(&name) {
            let ghost pre = self.completed@;
            self.completed.push(name);
            proof {
                assert forall|n: Seq<char>| self@.contains(n)
                    implies old(self)@.insert(name@).contains(n) by {
                    let i = choose|i: int|
                        0 <= i < self.completed@.len() && self.completed@[i]@ == n;
                    if i < pre.len() {
                        assert(pre[i]@ == n);
                    }
                }
                assert forall|n: Seq<char>| old(self)@.insert(name@).contains(n)
                    implies self@.contains(n) by {
                    if n == name@ {
                        assert(self.completed@[pre.len() as int]@ == n);
                    } else {
                        let i = choose|i: int| 0 <= i < pre.len() && pre[i]@ == n;
                        assert(self.completed@[i]@ == n);
                    }
                }
                assert(self@ =~= old(self)@.insert(name@));
            }
        } else {
            proof {
                assert(self@ =~= old(self)@.insert(name@));
            }
        }
    }
}

} // verus!
