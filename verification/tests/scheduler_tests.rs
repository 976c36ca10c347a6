//! Scenarios driving the scheduler the way a block-producing host would:
//! genesis seeding, single and repeated ticks, and overweight migrations.

use migration_engine::event::Event;
use migration_engine::ledger::CompletionLedger;
use migration_engine::migration::ScriptedMigration;
use migration_engine::registry::Registry;
use migration_engine::scheduler::{SchedulerConfig, UpgradeScheduler};

const OVERHEAD: u64 = 100_000_000;
const MAX_BLOCK: u64 = 2_000_000_000_000;

fn test_config() -> SchedulerConfig {
    SchedulerConfig {
        overhead_weight: OVERHEAD,
        max_block_weight: MAX_BLOCK,
        charge_full_block: true,
    }
}

/// An engine with no migrations registered, as a default-built chain has.
fn default_engine() -> UpgradeScheduler<ScriptedMigration> {
    UpgradeScheduler::new(Registry::new(), CompletionLedger::new(), test_config())
}

/// Tick until the engine reports itself fully upgraded, counting blocks the
/// way a chain mock does: the block number only advances when an upgrade is
/// still unfinished after a tick.
fn roll_until_upgraded(engine: &mut UpgradeScheduler<ScriptedMigration>, block_number: &mut u64) {
    loop {
        engine.run_upgrade_tick();
        if engine.is_fully_upgraded() {
            break;
        }
        *block_number += 1;
    }
}

#[test]
fn genesis_builder_works() {
    let engine = default_engine();
    assert!(engine.events().is_empty());
}

// This test ensures that the scripted-migration machinery works, and serves as
// a minimal example of how to use it: register a descriptor, seed it as
// uncompleted, roll until upgraded, and read the call counters back.
#[test]
fn mock_migrations_static_hack_works() {
    let mut registry = Registry::new();
    assert!(registry
        .register(ScriptedMigration::new(String::from("hello, world"), 0))
        .is_ok());

    let uncompleted = vec![String::from("hello, world")];
    let mut engine = UpgradeScheduler::with_uncompleted(registry, &uncompleted, test_config());
    let mut block_number: u64 = 1;
    roll_until_upgraded(&mut engine, &mut block_number);
    // the scenario body ran to completion: the engine really got upgraded
    let ecb_fn_called = engine.is_fully_upgraded();

    let migration = &engine.registry().all()[0];
    assert!(
        migration.name_calls > 0,
        "mock migration should call friendly_name()"
    );
    assert!(
        migration.step_calls > 0,
        "mock migration should call step()"
    );
    assert!(ecb_fn_called, "mock migration should call ECB callback");
}

#[test]
fn on_runtime_upgrade_returns() {
    let mut engine = default_engine();
    engine.run_upgrade_tick();
}

#[test]
fn on_runtime_upgrade_emits_events() {
    let mut engine = default_engine();
    engine.run_upgrade_tick();

    let expected = vec![
        Event::UpgradeCycleStarted,
        Event::UpgradeCycleCompleted {
            weight: 100000000u64,
        },
    ];
    assert!(*engine.events() == expected);
}

#[test]
fn migration_should_only_be_invoked_once() {
    let mut registry = Registry::new();
    assert!(registry
        .register(ScriptedMigration::new(String::from("migration1"), 1))
        .is_ok());

    let uncompleted = vec![String::from("migration1")];
    let mut engine = UpgradeScheduler::with_uncompleted(registry, &uncompleted, test_config());
    let mut block_number: u64 = 1;

    // roll forward until upgraded, should happen before block even increments
    roll_until_upgraded(&mut engine, &mut block_number);

    assert!(block_number == 1);
    // name is asked for once at registration, then once during the runtime
    // upgrade. So that's two times.
    assert!(
        engine.registry().all()[0].name_calls == 2,
        "migration name needed twice"
    );
    assert!(
        engine.registry().all()[0].step_calls == 1,
        "migration step needed once"
    );
    let mut expected = vec![
        Event::UpgradeCycleStarted,
        Event::MigrationStarted {
            name: String::from("migration1"),
        },
        Event::MigrationCompleted {
            name: String::from("migration1"),
            consumed: 1,
        },
        Event::UpgradeCycleCompleted {
            weight: 100000001u64,
        },
    ];
    assert!(*engine.events() == expected);

    // attempt to roll forward again; the engine asks for the name again but
    // immediately recognizes that no work needs to be done (and does not step)
    roll_until_upgraded(&mut engine, &mut block_number);

    assert!(block_number == 1);
    assert!(
        engine.registry().all()[0].name_calls == 3,
        "migration name needed third"
    );
    assert!(
        engine.registry().all()[0].step_calls == 1,
        "migration step not needed again"
    );
    expected.append(&mut vec![
        Event::UpgradeCycleStarted,
        Event::UpgradeCycleCompleted {
            weight: 100000000u64,
        },
    ]);
    assert!(*engine.events() == expected);

    // roll forward a few blocks without a runtime upgrade
    while block_number < 3 {
        block_number += 1;
    }
    assert!(
        engine.registry().all()[0].name_calls == 3,
        "migration name not needed again"
    );
    assert!(
        engine.registry().all()[0].step_calls == 1,
        "migration step not needed again"
    );
    // assert that no new events have been emitted
    assert!(*engine.events() == expected);
}

#[test]
fn on_runtime_upgrade_charges_max_block_weights() {
    let mut engine = default_engine();
    let weight = engine.run_upgrade_tick();
    assert!(weight == MAX_BLOCK);
}

#[test]
fn overweight_migrations_tolerated() {
    // The engine tolerates a migration going over-weight. Not only does it
    // tolerate it, it continues to the next migration even when the tick is
    // already overweight: going over-weight might be catastrophic, but
    // preventing migrations from proceeding certainly is.

    let mut registry = Registry::new();
    assert!(registry
        .register(ScriptedMigration::new(
            String::from("migration1"),
            1_000_000_000_000u64,
        ))
        .is_ok());
    assert!(registry
        .register(ScriptedMigration::new(
            String::from("migration2"),
            1_000_000_000_000u64,
        ))
        .is_ok());
    assert!(registry
        .register(ScriptedMigration::new(
            String::from("migration3"),
            1_000_000_000_000u64,
        ))
        .is_ok());

    let uncompleted = vec![
        String::from("migration1"),
        String::from("migration2"),
        String::from("migration3"),
    ];
    let mut engine = UpgradeScheduler::with_uncompleted(registry, &uncompleted, test_config());
    engine.run_upgrade_tick();

    assert!(engine.registry().all()[0].step_calls == 1);
    assert!(engine.registry().all()[1].step_calls == 1);
    assert!(engine.registry().all()[2].step_calls == 1);
    assert!(engine.is_fully_upgraded());
}
