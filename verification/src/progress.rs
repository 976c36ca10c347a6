//! The specification-level model of upgrade progress: which registered names
//! are outstanding against a completion ledger, and the laws the scheduler's
//! contract rests on — every outstanding name is visited exactly once, in
//! registration order, and a completed name is never visited again.

use vstd::prelude::*;

verus! {

/// The views of a sequence of strings.
pub open spec fn names_of(ss: Seq<String>) -> Seq<Seq<char>> {
    ss.map_values(|s: String| s@)
}

/// Names are pairwise distinct.
pub open spec fn distinct(names: Seq<Seq<char>>) -> bool {
    forall|i: int, j: int| 0 <= i < j < names.len() ==> names[i] != names[j]
}

/// Every name in `names` is recorded in `done`.
pub open spec fn all_completed(names: Seq<Seq<char>>, done: Set<Seq<char>>) -> bool {
    forall|i: int| 0 <= i < names.len() ==> done.contains(names[i])
}

/// The names of `names` that are not recorded in `done`, in the order they
/// stand in `names`: the work a tick has left to do.
pub open spec fn outstanding(names: Seq<Seq<char>>, done: Set<Seq<char>>) -> Seq<Seq<char>>
    decreases names.len(),
{
    if names.len() == 0 {
        Seq::empty()
    } else {
        let rest = outstanding(names.drop_last(), done);
        if done.contains(names.last()) {
            rest
        } else {
            rest.push(names.last())
        }
    }
}

/// How often `name` occurs in `names`.
pub open spec fn occurrences(names: Seq<Seq<char>>, name: Seq<char>) -> nat
    decreases names.len(),
{
    if names.len() == 0 {
        0
    } else {
        occurrences(names.drop_last(), name) + if names.last() == name {
            1nat
        } else {
            0nat
        }
    }
}

/// A name occurs somewhere iff it occurs a positive number of times.
pub proof fn lemma_occurrences_positive(names: Seq<Seq<char>>, name: Seq<char>)
    ensures
        names.contains(name) <==> occurrences(names, name) > 0,
    decreases names.len(),
{
    if names.len() > 0 {
        lemma_occurrences_positive(names.drop_last(), name);
        if names.contains(name) {
            let i = choose|i: int| 0 <= i < names.len() && names[i] == name;
            if i < names.len() - 1 {
                assert(names.drop_last()[i] == name);
            }
        }
        if names.drop_last().contains(name) {
            let i = choose|i: int|
                0 <= i < names.drop_last().len() && names.drop_last()[i] == name;
            assert(names[i] == name);
        }
    }
}

/// A name is outstanding iff it is registered and not yet completed.
pub proof fn lemma_outstanding_membership(
    names: Seq<Seq<char>>,
    done: Set<Seq<char>>,
    name: Seq<char>,
)
    ensures
        outstanding(names, done).contains(name) <==> (names.contains(name) && !done.contains(
            name,
        )),
    decreases names.len(),
{
    if names.len() > 0 {
        let prefix = names.drop_last();
        lemma_outstanding_membership(prefix, done, name);
        let rest = outstanding(prefix, done);
        if names.contains(name) && !done.contains(name) {
            let i = choose|i: int| 0 <= i < names.len() && names[i] == name;
            if i < names.len() - 1 {
                assert(prefix[i] == name);
                assert(rest.contains(name));
                if !done.contains(names.last()) {
                    assert(rest.push(names.last())[choose|k: int|
                        0 <= k < rest.len() && rest[k] == name] == name);
                }
            } else {
                assert(names.last() == name);
                assert(rest.push(name)[rest.len() as int] == name);
            }
        }
        if outstanding(names, done).contains(name) {
            if done.contains(names.last()) {
                assert(prefix.contains(name) ==> names.contains(name)) by {
                    if prefix.contains(name) {
                        let i = choose|i: int| 0 <= i < prefix.len() && prefix[i] == name;
                        assert(names[i] == name);
                    }
                }
            } else {
                let out = rest.push(names.last());
                let i = choose|i: int| 0 <= i < out.len() && out[i] == name;
                if i < rest.len() {
                    assert(rest.contains(name));
                    let j = choose|j: int| 0 <= j < prefix.len() && prefix[j] == name;
                    assert(names[j] == name);
                } else {
                    assert(names.last() == name);
                    assert(names[names.len() - 1] == name);
                }
            }
        }
    }
}

/// Law: a completed name is never visited again — it does not stand in the
/// outstanding work of any later tick, whatever else the ledger holds.
pub proof fn lemma_completed_never_revisited(
    names: Seq<Seq<char>>,
    done: Set<Seq<char>>,
    name: Seq<char>,
)
    requires
        done.contains(name),
    ensures
        !outstanding(names, done).contains(name),
{
    lemma_outstanding_membership(names, done, name);
}

/// Law: once every registered name is completed, no work is outstanding:
/// further ticks run no migration.
pub proof fn lemma_fully_upgraded_outstanding_empty(names: Seq<Seq<char>>, done: Set<Seq<char>>)
    requires
        all_completed(names, done),
    ensures
        outstanding(names, done) == Seq::<Seq<char>>::empty(),
    decreases names.len(),
{
    if names.len() > 0 {
        assert(forall|i: int|
            0 <= i < names.drop_last().len() ==> done.contains(names.drop_last()[i]));
        lemma_fully_upgraded_outstanding_empty(names.drop_last(), done);
    }
}

/// Law: while nothing is completed yet, a tick's outstanding work is every
/// registered name, in registration order.
pub proof fn lemma_fresh_outstanding_is_all(names: Seq<Seq<char>>, done: Set<Seq<char>>)
    requires
        forall|i: int| 0 <= i < names.len() ==> !done.contains(names[i]),
    ensures
        outstanding(names, done) == names,
    decreases names.len(),
{
    if names.len() > 0 {
        assert(forall|i: int|
            0 <= i < names.drop_last().len() ==> !done.contains(names.drop_last()[i]));
        lemma_fresh_outstanding_is_all(names.drop_last(), done);
        assert(outstanding(names, done) =~= names);
    }
}

/// Law: with distinct registered names, each name not yet completed stands in
/// the outstanding work exactly once, and a completed or unregistered name
/// not at all — no migration is visited twice within a tick.
pub proof fn lemma_outstanding_exactly_once(
    names: Seq<Seq<char>>,
    done: Set<Seq<char>>,
    name: Seq<char>,
)
    requires
        distinct(names),
    ensures
        occurrences(outstanding(names, done), name) == if names.contains(name) && !done.contains(
            name,
        ) {
            1nat
        } else {
            0nat
        },
    decreases names.len(),
{
    if names.len() == 0 {
        lemma_occurrences_positive(names, name);
    } else {
        let prefix = names.drop_last();
        assert(distinct(prefix));
        lemma_outstanding_exactly_once(prefix, done, name);
        lemma_outstanding_membership(prefix, done, name);
        let rest = outstanding(prefix, done);
        if done.contains(names.last())  {
            if names.contains(name) && !done.contains(name) {
                let i = choose|i: int| 0 <= i < names.len() && names[i] == name;
                assert(prefix[i] == name);
            }
        } else {
            assert(occurrences(rest.push(names.last()), name) == occurrences(rest, name) + if names.last() == name {
                1nat
            } else {
                0nat
            }) by {
                assert(rest.push(names.last()).drop_last() =~= rest);
            }
            if names.last() == name {
                assert(!prefix.contains(name)) by {
                    if prefix.contains(name) {
                        let i = choose|i: int| 0 <= i < prefix.len() && prefix[i] == name;
                        assert(names[i] == names[names.len() - 1]);
                    }
                }
                assert(names.contains(name)) by {
                    assert(names[names.len() - 1] == name);
                }
            } else {
                if names.contains(name) {
                    let i = choose|i: int| 0 <= i < names.len() && names[i] == name;
                    assert(prefix[i] == name);
                }
            }
        }
    }
}

/// Law: resumability. However far an earlier tick got (`done` grown to
/// `done2`), the remaining work consists of exactly the registered names the
/// ledger does not yet hold — completed names are never re-run, and names the
/// earlier tick did not reach are still there.
pub proof fn lemma_resumable(names: Seq<Seq<char>>, done2: Set<Seq<char>>, name: Seq<char>)
    ensures
        outstanding(names, done2).contains(name) <==> (names.contains(name) && !done2.contains(
            name,
        )),
{
    lemma_outstanding_membership(names, done2, name);
}

/// Splitting the registered names one further to the right adds the next name
/// to the outstanding work exactly when the ledger does not hold it.
pub proof fn lemma_outstanding_take_succ(names: Seq<Seq<char>>, done: Set<Seq<char>>, i: int)
    requires
        0 <= i < names.len(),
    ensures
        outstanding(names.take(i + 1), done) == if done.contains(names[i]) {
            outstanding(names.take(i), done)
        } else {
            outstanding(names.take(i), done).push(names[i])
        },
{
    assert(names.take(i + 1).drop_last() =~= names.take(i));
    assert(names.take(i + 1).last() == names[i]);
}

/// The outstanding work of a prefix never shrinks as the prefix grows.
pub proof fn lemma_outstanding_take_len_monotone(
    names: Seq<Seq<char>>,
    done: Set<Seq<char>>,
    k: int,
    i: int,
)
    requires
        0 <= k <= i <= names.len(),
    ensures
        outstanding(names.take(k), done).len() <= outstanding(names.take(i), done).len(),
    decreases i - k,
{
    if k < i {
        lemma_outstanding_take_len_monotone(names, done, k, i - 1);
        lemma_outstanding_take_succ(names, done, i - 1);
    }
}

/// Taking one more name into the prefix grows its set of names by that name.
pub proof fn lemma_take_succ_to_set(names: Seq<Seq<char>>, i: int)
    requires
        0 <= i < names.len(),
    ensures
        names.take(i + 1).to_set() == names.take(i).to_set().insert(names[i]),
{
    let a = names.take(i + 1);
    let b = names.take(i);
    assert forall|x: Seq<char>| a.to_set().contains(x)
        implies b.to_set().insert(names[i]).contains(x) by {
        let k = choose|k: int| 0 <= k < a.len() && a[k] == x;
        if k < i {
            assert(b[k] == x);
        }
    }
    assert forall|x: Seq<char>| b.to_set().insert(names[i]).contains(x)
        implies a.to_set().contains(x) by {
        if b.to_set().contains(x) {
            let k = choose|k: int| 0 <= k < b.len() && b[k] == x;
            assert(a[k] == x);
        } else {
            assert(a[i] == names[i]);
        }
    }
    assert(a.to_set() =~= b.to_set().insert(names[i]));
}

} // verus!
