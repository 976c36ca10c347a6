//! The upgrade scheduler: the state machine the host ticks once per block.
//!
//! Each tick consults the completion ledger and the registry, executes every
//! outstanding migration in registration order, records each one in the
//! ledger the moment its step returns, emits the lifecycle events, and
//! reports the weight charged. A step that overruns the remaining budget is
//! tolerated — stalling the upgrade would be worse than an expensive block —
//! so a tick always finishes the whole registry.

use vstd::prelude::*;

use crate::event::{
    charged_total, consumed_of, is_migration_completed, is_migration_started,
    lemma_charged_total_stable, lemma_pairs_preserved, migration_pairs_ok, Event,
};
use crate::ledger::CompletionLedger;
use crate::migration::Migration;
use crate::progress::{
    all_completed, distinct, lemma_fully_upgraded_outstanding_empty,
    lemma_outstanding_take_len_monotone, lemma_outstanding_take_succ, lemma_take_succ_to_set,
    names_of, outstanding,
};
use crate::registry::Registry;
use crate::Weight;

verus! {

/// How a tick charges its host.
///
/// The overhead is the fixed cost of a tick itself — consulting the ledger is
/// never free. Whether the host is charged the accumulated cost or the whole
/// block allowance is an explicit policy choice, not inferred behaviour.
#[derive(PartialEq, Eq, Structural, Clone, Copy)]
pub struct SchedulerConfig {
    /// The fixed cost charged by every tick, worked or not.
    pub overhead_weight: Weight,
    /// The host's per-tick resource allowance, against which the remaining
    /// budget handed to each step is computed.
    pub max_block_weight: Weight,
    /// When set, a tick reports `max_block_weight` to the host instead of the
    /// accumulated cost; the `UpgradeCycleCompleted` event always carries the
    /// accumulated cost.
    pub charge_full_block: bool,
}

/// The scheduler's externally visible state.
#[derive(PartialEq, Eq, Structural, Clone, Copy)]
pub enum SchedulerState {
    /// Every registered name is recorded in the ledger.
    Idle,
    /// At least one registered name is absent from the ledger.
    Upgrading,
}

/// The engine: a registry of descriptors, the completion ledger, the event
/// log, and the charging policy, driven by `run_upgrade_tick`.
pub struct UpgradeScheduler<M: Migration> {
    registry: Registry<M>,
    ledger: CompletionLedger,
    events: Vec<Event>,
    config: SchedulerConfig,
    fully_upgraded: bool,
}

impl<M: Migration> UpgradeScheduler<M> {
    /// The registered names, in execution order.
    pub open spec fn names(&self) -> Seq<Seq<char>> {
        self.registry_spec().names()
    }

    /// The registered descriptors, in execution order.
    pub open spec fn descriptors(&self) -> Seq<M> {
        self.registry_spec().descriptors()
    }

    /// The injected registry.
    pub closed spec fn registry_spec(&self) -> Registry<M> {
        self.registry
    }

    /// The names recorded as completed.
    pub closed spec fn completed(&self) -> Set<Seq<char>> {
        self.ledger@
    }

    /// The event log so far.
    pub closed spec fn log(&self) -> Seq<Event> {
        self.events@
    }

    /// The charging policy.
    pub closed spec fn cfg(&self) -> SchedulerConfig {
        self.config
    }

    /// The work the next tick will perform: the registered names absent from
    /// the ledger, in registration order.
    pub open spec fn pending(&self) -> Seq<Seq<char>> {
        outstanding(self.names(), self.completed())
    }

    /// The registry is well formed and the cached idle/upgrading flag agrees
    /// with ledger and registry.
    pub closed spec fn wf(&self) -> bool {
        &&& self.registry.wf()
        &&& self.fully_upgraded == all_completed(self.names(), self.completed())
    }

    /// A scheduler over `registry` that resumes from `ledger`, with an empty
    /// event log.
    pub fn new(registry: Registry<M>, ledger: CompletionLedger, config: SchedulerConfig) -> (r:
        UpgradeScheduler<M>)
        requires
            registry.wf(),
        ensures
            r.wf(),
            r.registry_spec() == registry,
            r.completed() == ledger@,
            r.log() == Seq::<Event>::empty(),
            r.cfg() == config,
    {
        let fully_upgraded = Self::scan_fully_upgraded(&registry, &ledger);
        UpgradeScheduler { registry, ledger, events: Vec::new(), config, fully_upgraded }
    }

    /// A scheduler whose ledger is seeded the way a chain's genesis seeds it:
    /// every registered name starts completed except those listed in
    /// `uncompleted`. No descriptor is asked for its name again.
    #[verifier::loop_isolation(false)]
    pub fn with_uncompleted(
        registry: Registry<M>,
        uncompleted: &Vec<String>,
        config: SchedulerConfig,
    ) -> (r: UpgradeScheduler<M>)
        requires
            registry.wf(),
        ensures
            r.wf(),
            r.registry_spec() == registry,
            r.log() == Seq::<Event>::empty(),
            r.cfg() == config,
            forall|x: Seq<char>|
                r.completed().contains(x) <==> (registry.names().contains(x) && !names_of(
                    uncompleted@,
                ).contains(x)),
    {
        proof {
            registry.wf_implies_unique();
        }
        let mut ledger = CompletionLedger::new();
        let n = registry.len();
        let mut i: usize = 0;
        while i < n
            invariant
                0 <= i <= n,
                ledger@ == registry.names().take(i as int).to_set().difference(
                    names_of(uncompleted@).to_set(),
                ),
            decreases n - i,
        {
            let name = registry.name_at(i);
            proof {
                lemma_take_succ_to_set(registry.names(), i as int);
            }
            if !Self::vec_contains_name(uncompleted, name) {
                ledger.insert(name.clone());
            }
            proof {
                assert(ledger@ =~= registry.names().take(i as int + 1).to_set().difference(
                    names_of(uncompleted@).to_set(),
                ));
            }
            i += 1;
        }
        proof {
            assert(registry.names().take(n as int) =~= registry.names());
        }
        let fully_upgraded = Self::scan_fully_upgraded(&registry, &ledger);
        let r = UpgradeScheduler { registry, ledger, events: Vec::new(), config, fully_upgraded };
        proof {
            assert forall|x: Seq<char>| #[trigger] r.completed().contains(x) <==> (
            registry.names().contains(x) && !names_of(uncompleted@).contains(x)) by {
            }
        }
        r
    }

    /// Whether `v` holds a string whose characters are `name`'s.
    #[verifier::loop_isolation(false)]
    fn vec_contains_name(v: &Vec<String>, name: &String) -> (r: bool)
        ensures
            r == names_of(v@).contains(name@),
    {
        let n = v.len();
        let mut i: usize = 0;
        while i < n
            invariant
                0 <= i <= n,
                n == v@.len(),
                forall|j: int| 0 <= j < i ==> names_of(v@)[j] != name@,
            decreases n - i,
        {
            if v[i].eq(name) {
                assert(names_of(v@)[i as int] == name@);
                return true;
            }
            i += 1;
        }
        false
    }

    /// Whether every registered name is recorded in `ledger`.
    #[verifier::loop_isolation(false)]
    fn scan_fully_upgraded(registry: &Registry<M>, ledger: &CompletionLedger) -> (r: bool)
        requires
            registry.wf(),
        ensures
            r == all_completed(registry.names(), ledger@),
    {
        let n = registry.len();
        let mut i: usize = 0;
        while i < n
            invariant
                0 <= i <= n,
                forall|j: int| 0 <= j < i ==> ledger@.contains(registry.names()[j]),
            decreases n - i,
        {
            if !ledger.contains(registry.name_at(i)) {
                return false;
            }
            i += 1;
        }
        true
    }

    /// True iff every registered name is recorded complete. Read from the
    /// scheduler's cached flag; no descriptor is consulted.
    pub fn is_fully_upgraded(&self) -> (r: bool)
        requires
            self.wf(),
        ensures
            r == all_completed(self.names(), self.completed()),
    {
        self.fully_upgraded
    }

    /// `Idle` when nothing is outstanding, `Upgrading` otherwise. The machine
    /// re-evaluates on every tick; `Idle` is where it rests.
    pub fn state(&self) -> (r: SchedulerState)
        requires
            self.wf(),
        ensures
            (r == SchedulerState::Idle) == all_completed(self.names(), self.completed()),
    {
        if self.fully_upgraded {
            SchedulerState::Idle
        } else {
            SchedulerState::Upgrading
        }
    }

    /// The event log, in emission order.
    pub fn events(&self) -> (r: &Vec<Event>)
        ensures
            r@ == self.log(),
    {
        &self.events
    }

    /// The injected registry, for reading descriptors back out.
    pub fn registry(&self) -> (r: &Registry<M>)
        ensures
            *r == self.registry_spec(),
    {
        &self.registry
    }

    /// Mutably borrow the injected registry, for the verification harness to
    /// run check hooks over the same descriptors the ticks execute. The
    /// scheduler stays well formed provided the borrower leaves the
    /// registry well formed with its names unchanged.
    pub(crate) fn registry_mut(&mut self) -> (r: &mut Registry<M>)
        ensures
            *r == old(self).registry_spec(),
            old(self).wf() ==> old(self).registry_spec().wf(),
            final(self).registry_spec() == *final(r),
            final(self).completed() == old(self).completed(),
            final(self).log() == old(self).log(),
            final(self).cfg() == old(self).cfg(),
            (old(self).wf() && final(r).wf() && final(r).names() == old(self).names())
                ==> final(self).wf(),
    {
        &mut self.registry
    }

    /// The completion ledger.
    pub fn ledger(&self) -> (r: &CompletionLedger)
        ensures
            r@ == self.completed(),
    {
        &self.ledger
    }

    /// One tick: execute every outstanding migration, in registration order,
    /// recording each in the ledger the moment its step returns and emitting
    /// the lifecycle events; report the weight charged.
    ///
    /// The contract pins the whole observable effect of a tick down:
    /// - the ledger afterwards holds exactly its old names plus every
    ///   registered name, so the scheduler is fully upgraded;
    /// - the log gains `UpgradeCycleStarted`, then a `MigrationStarted` /
    ///   `MigrationCompleted` pair per outstanding name in registration
    ///   order, then `UpgradeCycleCompleted` carrying the overhead plus the
    ///   costs those pairs record — and each recorded cost is the planned
    ///   cost of the descriptor that ran;
    /// - each outstanding descriptor steps exactly once, and a descriptor
    ///   already recorded in the ledger — however costly the tick, however
    ///   small the budget — does not step at all: re-execution is impossible
    ///   and overruns are tolerated rather than aborted;
    /// - once fully upgraded, a tick charges only the fixed overhead and
    ///   emits only the `UpgradeCycleStarted` / `UpgradeCycleCompleted` pair.
    #[verifier::rlimit(100)]
    pub fn run_upgrade_tick(&mut self) -> (charged: Weight)
        requires
            old(self).wf(),
        ensures
            final(self).wf(),
            final(self).cfg() == old(self).cfg(),
            final(self).names() == old(self).names(),
            final(self).completed() == old(self).completed().union(old(self).names().to_set()),
            all_completed(final(self).names(), final(self).completed()),
            final(self).log().len() == old(self).log().len() + 2 + 2 * old(self).pending().len(),
            final(self).log().take(old(self).log().len() as int) == old(self).log(),
            final(self).log()[old(self).log().len() as int] == Event::UpgradeCycleStarted,
            migration_pairs_ok(
                final(self).log(),
                old(self).log().len() as int + 1,
                old(self).pending(),
            ),
            final(self).log().last() == (Event::UpgradeCycleCompleted {
                weight: charged_total(
                    final(self).log(),
                    old(self).log().len() as int + 1,
                    old(self).pending().len() as int,
                    old(self).cfg().overhead_weight,
                ),
            }),
            final(self).descriptors().len() == old(self).descriptors().len(),
            forall|k: int|
                0 <= k < old(self).descriptors().len() ==> (#[trigger] final(self).descriptors()[k]).name_spec()
                    == old(self).descriptors()[k].name_spec(),
            forall|k: int|
                0 <= k < old(self).descriptors().len() ==> (#[trigger] final(self).descriptors()[k]).steps_taken()
                    == old(self).descriptors()[k].steps_taken() + (
                if old(self).completed().contains(old(self).names()[k]) {
                    0nat
                } else {
                    1nat
                }),
            forall|k: int|
                0 <= k < old(self).names().len() && !old(self).completed().contains(
                    old(self).names()[k],
                ) ==> consumed_of(
                    final(self).log()[old(self).log().len() as int + 2 + 2 * outstanding(
                        old(self).names().take(k),
                        old(self).completed(),
                    ).len()],
                ) == (#[trigger] old(self).descriptors()[k]).planned_cost(),
            charged == (if old(self).cfg().charge_full_block {
                old(self).cfg().max_block_weight
            } else {
                charged_total(
                    final(self).log(),
                    old(self).log().len() as int + 1,
                    old(self).pending().len() as int,
                    old(self).cfg().overhead_weight,
                )
            }),
            all_completed(old(self).names(), old(self).completed()) ==> {
                &&& final(self).log() == old(self).log() + seq![
                    Event::UpgradeCycleStarted,
                    (Event::UpgradeCycleCompleted { weight: old(self).cfg().overhead_weight }),
                ]
                &&& final(self).completed() == old(self).completed()
                &&& charged == (if old(self).cfg().charge_full_block {
                    old(self).cfg().max_block_weight
                } else {
                    old(self).cfg().overhead_weight
                })
            },
    {
        let ghost names: Seq<Seq<char>> = old(self).names();
        let ghost done: Set<Seq<char>> = old(self).completed();
        let ghost n0: int = old(self).log().len() as int;
        let ghost oh: Weight = old(self).cfg().overhead_weight;
        self.events.push(Event::UpgradeCycleStarted);
        let max_block_weight = self.config.max_block_weight;
        let overhead = self.config.overhead_weight;
        let total = Self::process_outstanding(
            &mut self.registry,
            &mut self.ledger,
            &mut self.events,
            max_block_weight,
            overhead,
        );
        let ghost evs_body = self.events@;
        let ghost out = outstanding(names, done);
        self.events.push(Event::UpgradeCycleCompleted { weight: total });
        self.fully_upgraded = true;
        proof {
            lemma_charged_total_stable(evs_body, self.events@, n0 + 1, out.len() as int, oh);
            assert(evs_body.take(n0) =~= old(self).log());
            assert(self.events@.take(n0) =~= old(self).log());
            assert(evs_body.take(n0 + 1)[n0] == Event::UpgradeCycleStarted);
            assert(self.events@[n0] == Event::UpgradeCycleStarted);
            lemma_pairs_preserved(evs_body, self.events@, n0 + 1, out);
            lemma_costs_preserved::<M>(
                names,
                done,
                old(self).descriptors(),
                evs_body,
                self.events@,
                n0 + 1,
            );
            assert(all_completed(names, self.ledger@)) by {
                assert forall|k: int| 0 <= k < names.len() implies self.ledger@.contains(
                    names[k],
                ) by {
                    assert(names.to_set().contains(names[k]));
                }
            }
            if all_completed(names, done) {
                lemma_fully_upgraded_outstanding_empty(names, done);
                assert(self.ledger@ =~= done);
                assert(self.events@ =~= old(self).log() + seq![
                    Event::UpgradeCycleStarted,
                    (Event::UpgradeCycleCompleted { weight: oh }),
                ]);
            }
        }
        if self.config.charge_full_block {
            self.config.max_block_weight
        } else {
            total
        }
    }

    /// The body of a tick, between its start and completion events: execute
    /// every outstanding migration in registration order, record each in the
    /// ledger the moment its step returns, emit its event pair, and
    /// accumulate the reported costs onto the fixed overhead.
    #[verifier::loop_isolation(false)]
    #[verifier::rlimit(100)]
    fn process_outstanding(
        registry: &mut Registry<M>,
        ledger: &mut CompletionLedger,
        events: &mut Vec<Event>,
        max_block_weight: Weight,
        overhead: Weight,
    ) -> (total: Weight)
        requires
            old(registry).wf(),
        ensures
            final(registry).wf(),
            final(registry).names() == old(registry).names(),
            final(registry).descriptors().len() == old(registry).descriptors().len(),
            forall|k: int|
                0 <= k < old(registry).descriptors().len() ==> (#[trigger] final(registry).descriptors()[k]).name_spec()
                    == old(registry).descriptors()[k].name_spec(),
            forall|k: int|
                0 <= k < old(registry).descriptors().len() ==> (#[trigger] final(registry).descriptors()[k]).steps_taken()
                    == old(registry).descriptors()[k].steps_taken() + (
                if old(ledger)@.contains(old(registry).names()[k]) {
                    0nat
                } else {
                    1nat
                }),
            forall|k: int|
                0 <= k < old(registry).names().len() && !old(ledger)@.contains(
                    old(registry).names()[k],
                ) ==> consumed_of(
                    final(events)@[old(events)@.len() as int + 1 + 2 * outstanding(
                        old(registry).names().take(k),
                        old(ledger)@,
                    ).len()],
                ) == (#[trigger] old(registry).descriptors()[k]).planned_cost(),
            final(ledger)@ == old(ledger)@.union(old(registry).names().to_set()),
            final(events)@.len() == old(events)@.len() + 2 * outstanding(
                old(registry).names(),
                old(ledger)@,
            ).len(),
            final(events)@.take(old(events)@.len() as int) == old(events)@,
            migration_pairs_ok(
                final(events)@,
                old(events)@.len() as int,
                outstanding(old(registry).names(), old(ledger)@),
            ),
            total == charged_total(
                final(events)@,
                old(events)@.len() as int,
                outstanding(old(registry).names(), old(ledger)@).len() as int,
                overhead,
            ),
    {
        let ghost names: Seq<Seq<char>> = old(registry).names();
        let ghost done: Set<Seq<char>> = old(ledger)@;
        let ghost b0: int = old(events)@.len() as int;
        proof {
            registry.wf_implies_unique();
            assert(names.take(0) =~= Seq::<Seq<char>>::empty());
            assert(ledger@ =~= done.union(names.take(0).to_set()));
        }
        let mut total: Weight = overhead;
        let n = registry.len();
        let mut i: usize = 0;
        while i < n
            invariant
                0 <= i <= n,
                n == old(registry).descriptors().len(),
                registry.wf(),
                registry.names() == names,
                forall|k: int|
                    0 <= k < n ==> (#[trigger] registry.descriptors()[k]).name_spec()
                        == old(registry).descriptors()[k].name_spec(),
                forall|k: int|
                    0 <= k < n ==> (#[trigger] registry.descriptors()[k]).steps_taken()
                        == old(registry).descriptors()[k].steps_taken() + (
                    if k < i && !done.contains(names[k]) {
                        1nat
                    } else {
                        0nat
                    }),
                forall|k: int|
                    i <= k < n ==> (#[trigger] registry.descriptors()[k]).planned_cost()
                        == old(registry).descriptors()[k].planned_cost(),
                forall|k: int|
                    0 <= k < i && !done.contains(names[k]) ==> consumed_of(
                        events@[b0 + 1 + 2 * outstanding(names.take(k), done).len()],
                    ) == (#[trigger] old(registry).descriptors()[k]).planned_cost(),
                ledger@ == done.union(names.take(i as int).to_set()),
                events@.len() == b0 + 2 * outstanding(names.take(i as int), done).len(),
                events@.take(b0) == old(events)@,
                migration_pairs_ok(events@, b0, outstanding(names.take(i as int), done)),
                total == charged_total(
                    events@,
                    b0,
                    outstanding(names.take(i as int), done).len() as int,
                    overhead,
                ),
            decreases n - i,
        {
            let ghost out_i = outstanding(names.take(i as int), done);
            let ghost evs_top = events@;
            let ghost reg_pre = *registry;
            let name = registry.descriptor_mut(i).friendly_name();
            proof {
                Registry::lemma_wf_after_update(
                    reg_pre,
                    *registry,
                    i as int,
                    registry.descriptors()[i as int],
                );
                lemma_outstanding_take_succ(names, done, i as int);
                lemma_take_succ_to_set(names, i as int);
            }
            if !ledger.contains(&name) {
                proof {
                    assert(!done.contains(names[i as int]));
                }
                events.push(Event::MigrationStarted { name: name.clone() });
                let remaining = max_block_weight.saturating_sub(total);
                let ghost reg_mid = *registry;
                let ghost evs_mid = events@;
                let consumed = registry.descriptor_mut(i).step(remaining);
                ledger.insert(name.clone());
                events.push(Event::MigrationCompleted { name, consumed });
                proof {
                    Registry::lemma_wf_after_update(
                        reg_mid,
                        *registry,
                        i as int,
                        registry.descriptors()[i as int],
                    );
                    let out_succ = outstanding(names.take(i as int + 1), done);
                    assert(out_succ == out_i.push(names[i as int]));
                    assert(events@.take(b0) =~= old(events)@);
                    assert(ledger@ =~= done.union(names.take(i as int + 1).to_set()));
                    assert forall|j: int| 0 <= j < out_succ.len() implies is_migration_started(
                        events@[b0 + 2 * j],
                        out_succ[j],
                    ) && is_migration_completed(
                        events@[b0 + 2 * j + 1],
                        out_succ[j],
                    ) by {
                        if j < out_i.len() {
                            assert(is_migration_started(evs_mid[b0 + 2 * j], out_i[j]));
                            assert(is_migration_completed(evs_mid[b0 + 2 * j + 1], out_i[j]));
                        }
                    }
                    lemma_charged_total_stable(evs_top, events@, b0, out_i.len() as int, overhead);
                    assert(consumed_of(events@[b0 + 2 * (out_succ.len() - 1) + 1]) == consumed);
                    assert forall|k: int| 0 <= k < i + 1 && !done.contains(names[k])
                        implies consumed_of(
                        events@[b0 + 1 + 2 * outstanding(names.take(k), done).len()],
                    ) == (#[trigger] old(registry).descriptors()[k]).planned_cost() by {
                        if k < i {
                            lemma_outstanding_take_succ(names, done, k);
                            lemma_outstanding_take_len_monotone(names, done, k + 1, i as int);
                            assert(events@[b0 + 1 + 2 * outstanding(names.take(k), done).len()]
                                == evs_top[b0 + 1 + 2 * outstanding(names.take(k), done).len()]);
                        } else {
                            assert(consumed == reg_mid.descriptors()[i as int].planned_cost());
                        }
                    }
                }
                total = total.saturating_add(consumed);
            } else {
                proof {
                    assert(done.contains(names[i as int])) by {
                        if names.take(i as int).to_set().contains(names[i as int]) {
                            let k = choose|k: int|
                                0 <= k < i && names.take(i as int)[k] == names[i as int];
                            assert(names[k] == names[i as int]);
                            assert(distinct(names));
                        }
                    }
                }
            }
            i += 1;
        }
        proof {
            assert(names.take(n as int) =~= names);
        }
        total
    }
}

/// A log that extends `evs1` keeps the recorded cost of every executed
/// migration where `evs1` put it.
proof fn lemma_costs_preserved<M: Migration>(
    names: Seq<Seq<char>>,
    done: Set<Seq<char>>,
    ms: Seq<M>,
    evs1: Seq<Event>,
    evs2: Seq<Event>,
    base: int,
)
    requires
        0 <= base,
        ms.len() == names.len(),
        base + 2 * outstanding(names, done).len() <= evs1.len(),
        evs1.len() <= evs2.len(),
        forall|idx: int| 0 <= idx < evs1.len() ==> evs1[idx] == evs2[idx],
        forall|k: int|
            0 <= k < names.len() && !done.contains(names[k]) ==> consumed_of(
                evs1[base + 1 + 2 * outstanding(names.take(k), done).len()],
            ) == (#[trigger] ms[k]).planned_cost(),
    ensures
        forall|k: int|
            0 <= k < names.len() && !done.contains(names[k]) ==> consumed_of(
                evs2[base + 1 + 2 * outstanding(names.take(k), done).len()],
            ) == (#[trigger] ms[k]).planned_cost(),
{
    assert forall|k: int| 0 <= k < names.len() && !done.contains(names[k]) implies consumed_of(
        evs2[base + 1 + 2 * outstanding(names.take(k), done).len()],
    ) == (#[trigger] ms[k]).planned_cost() by {
        lemma_outstanding_take_succ(names, done, k);
        lemma_outstanding_take_len_monotone(names, done, k + 1, names.len() as int);
        assert(names.take(names.len() as int) =~= names);
        let m = outstanding(names.take(k), done).len();
        assert(evs1[base + 1 + 2 * m] == evs2[base + 1 + 2 * m]);
    }
}

} // verus!
