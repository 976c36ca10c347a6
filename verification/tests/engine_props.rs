//! Behavioural properties of the engine on concrete values: exactly-once
//! execution, idempotence of repeated ticks, resumability after a partial
//! run, duplicate-name rejection, and saturation of the charged weight.

use migration_engine::event::Event;
use migration_engine::ledger::CompletionLedger;
use migration_engine::migration::ScriptedMigration;
use migration_engine::registry::{Registry, RegistryError};
use migration_engine::scheduler::{SchedulerConfig, SchedulerState, UpgradeScheduler};

const OVERHEAD: u64 = 10;

fn small_config() -> SchedulerConfig {
    SchedulerConfig {
        overhead_weight: OVERHEAD,
        max_block_weight: 1_000,
        charge_full_block: false,
    }
}

fn scripted(name: &str, cost: u64) -> ScriptedMigration {
    ScriptedMigration::new(String::from(name), cost)
}

#[test]
fn every_outstanding_migration_runs_exactly_once_in_order() {
    let mut registry = Registry::new();
    assert!(registry.register(scripted("alpha", 3)).is_ok());
    assert!(registry.register(scripted("beta", 4)).is_ok());
    let uncompleted = vec![String::from("alpha"), String::from("beta")];
    let mut engine = UpgradeScheduler::with_uncompleted(registry, &uncompleted, small_config());

    let charged = engine.run_upgrade_tick();
    assert!(charged == OVERHEAD + 3 + 4);

    let expected = vec![
        Event::UpgradeCycleStarted,
        Event::MigrationStarted { name: String::from("alpha") },
        Event::MigrationCompleted { name: String::from("alpha"), consumed: 3 },
        Event::MigrationStarted { name: String::from("beta") },
        Event::MigrationCompleted { name: String::from("beta"), consumed: 4 },
        Event::UpgradeCycleCompleted { weight: OVERHEAD + 3 + 4 },
    ];
    assert!(*engine.events() == expected);
    assert!(engine.registry().all()[0].step_calls == 1);
    assert!(engine.registry().all()[1].step_calls == 1);
    assert!(engine.ledger().contains(&String::from("alpha")));
    assert!(engine.ledger().contains(&String::from("beta")));
    assert!(engine.is_fully_upgraded());
}

#[test]
fn repeated_ticks_charge_only_overhead_and_never_step_again() {
    let mut registry = Registry::new();
    assert!(registry.register(scripted("only", 5)).is_ok());
    let uncompleted = vec![String::from("only")];
    let mut engine = UpgradeScheduler::with_uncompleted(registry, &uncompleted, small_config());

    engine.run_upgrade_tick();
    assert!(engine.is_fully_upgraded());
    let after_first = engine.events().len();

    for _ in 0..4 {
        let charged = engine.run_upgrade_tick();
        assert!(charged == OVERHEAD);
    }
    assert!(engine.registry().all()[0].step_calls == 1);
    // each idle tick appends exactly the started/completed pair
    assert!(engine.events().len() == after_first + 4 * 2);
    for k in 0..4 {
        assert!(engine.events()[after_first + 2 * k] == Event::UpgradeCycleStarted);
        assert!(
            engine.events()[after_first + 2 * k + 1]
                == Event::UpgradeCycleCompleted { weight: OVERHEAD }
        );
    }
}

#[test]
fn a_later_tick_resumes_with_only_the_remaining_names() {
    // A partial earlier run is simulated by seeding the ledger as a restart
    // from durable state would: "early" is already recorded complete.
    let mut first_registry = Registry::new();
    assert!(first_registry.register(scripted("early", 1)).is_ok());
    let mut first_engine = UpgradeScheduler::with_uncompleted(
        first_registry,
        &vec![String::from("early")],
        small_config(),
    );
    first_engine.run_upgrade_tick();
    assert!(first_engine.is_fully_upgraded());

    let mut ledger = CompletionLedger::new();
    ledger.insert(String::from("early"));
    let mut registry = Registry::new();
    assert!(registry.register(scripted("early", 1)).is_ok());
    assert!(registry.register(scripted("late", 2)).is_ok());
    let mut engine = UpgradeScheduler::new(registry, ledger, small_config());
    assert!(!engine.is_fully_upgraded());
    assert!(engine.state() == SchedulerState::Upgrading);

    engine.run_upgrade_tick();
    assert!(engine.registry().all()[0].step_calls == 0, "completed names are never re-run");
    assert!(engine.registry().all()[1].step_calls == 1);
    let expected = vec![
        Event::UpgradeCycleStarted,
        Event::MigrationStarted { name: String::from("late") },
        Event::MigrationCompleted { name: String::from("late"), consumed: 2 },
        Event::UpgradeCycleCompleted { weight: OVERHEAD + 2 },
    ];
    assert!(*engine.events() == expected);
    assert!(engine.state() == SchedulerState::Idle);
}

#[test]
fn duplicate_names_are_rejected_at_registration() {
    let mut registry = Registry::new();
    assert!(registry.register(scripted("twice", 1)).is_ok());
    let rejected = registry.register(scripted("twice", 2));
    assert!(rejected == Err(RegistryError::DuplicateName));
    assert!(registry.len() == 1, "a duplicate is never silently deduplicated in");
    assert!(registry.register(scripted("other", 3)).is_ok());
    assert!(registry.len() == 2);
}

#[test]
fn charged_weight_saturates_instead_of_wrapping() {
    let mut registry = Registry::new();
    assert!(registry.register(scripted("huge", u64::MAX)).is_ok());
    assert!(registry.register(scripted("more", 5)).is_ok());
    let uncompleted = vec![String::from("huge"), String::from("more")];
    let mut engine = UpgradeScheduler::with_uncompleted(registry, &uncompleted, small_config());

    let charged = engine.run_upgrade_tick();
    assert!(charged == u64::MAX);
    let last = engine.events().last().unwrap();
    assert!(*last == Event::UpgradeCycleCompleted { weight: u64::MAX });
    // both migrations still ran, despite the saturated budget
    assert!(engine.registry().all()[0].step_calls == 1);
    assert!(engine.registry().all()[1].step_calls == 1);
}

#[test]
fn names_absent_from_the_uncompleted_list_start_completed() {
    let mut registry = Registry::new();
    assert!(registry.register(scripted("done_at_genesis", 9)).is_ok());
    assert!(registry.register(scripted("fresh", 1)).is_ok());
    let uncompleted = vec![String::from("fresh")];
    let engine = UpgradeScheduler::with_uncompleted(registry, &uncompleted, small_config());

    assert!(engine.ledger().contains(&String::from("done_at_genesis")));
    assert!(!engine.ledger().contains(&String::from("fresh")));
    assert!(!engine.is_fully_upgraded());
}

#[test]
fn an_empty_registry_is_idle_from_the_start() {
    let engine: UpgradeScheduler<ScriptedMigration> =
        UpgradeScheduler::new(Registry::new(), CompletionLedger::new(), small_config());
    assert!(engine.is_fully_upgraded());
    assert!(engine.state() == SchedulerState::Idle);
}
