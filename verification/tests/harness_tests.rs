//! The verification harness: pre-upgrade snapshot collection and post-upgrade
//! checking, over the same registry the scheduler executes.

use migration_engine::ledger::CompletionLedger;
use migration_engine::migration::ScriptedMigration;
use migration_engine::registry::Registry;
use migration_engine::scheduler::{SchedulerConfig, UpgradeScheduler};

fn harness_config() -> SchedulerConfig {
    SchedulerConfig {
        overhead_weight: 100_000_000,
        max_block_weight: 2_000_000_000_000,
        charge_full_block: false,
    }
}

#[test]
fn try_runtime_functions_work() {
    let mut registry = Registry::new();
    assert!(registry
        .register(ScriptedMigration::new(String::from("dummy_step"), 0))
        .is_ok());
    let mut engine =
        UpgradeScheduler::new(registry, CompletionLedger::new(), harness_config());

    // invoke all upgrade hooks: pre-collect, the real upgrade path, post-verify
    let snapshots = engine.collect_pre_upgrade_state().unwrap();
    assert!(snapshots[0].0 == "dummy_step");
    assert!(snapshots[0].1.is_empty());
    engine.run_upgrade_tick();
    assert!(engine.verify_post_upgrade_state(&snapshots).is_ok());

    let migration = &engine.registry().all()[0];
    assert!(
        migration.pre_calls == 1,
        "mock migration should call pre_upgrade()"
    );
    assert!(
        migration.post_calls == 1,
        "mock migration should call post_upgrade()"
    );
}

#[test]
fn pre_collection_gathers_one_snapshot_per_descriptor_in_order() {
    let mut registry = Registry::new();
    assert!(registry
        .register(ScriptedMigration::new(String::from("first"), 0))
        .is_ok());
    assert!(registry
        .register(ScriptedMigration::new(String::from("second"), 0))
        .is_ok());
    let mut engine =
        UpgradeScheduler::new(registry, CompletionLedger::new(), harness_config());

    let snapshots = engine.collect_pre_upgrade_state().unwrap();
    assert!(snapshots.len() == 2);
    assert!(snapshots[0].0 == "first");
    assert!(snapshots[1].0 == "second");
    // collecting state performs no migration work
    assert!(engine.registry().all()[0].step_calls == 0);
    assert!(engine.registry().all()[1].step_calls == 0);
}

#[test]
fn failing_pre_check_reports_the_originating_descriptor() {
    let mut registry = Registry::new();
    assert!(registry
        .register(ScriptedMigration::new(String::from("sound"), 0))
        .is_ok());
    assert!(registry
        .register(ScriptedMigration::with_check_results(
            String::from("broken"),
            0,
            false,
            true,
        ))
        .is_ok());
    let mut engine =
        UpgradeScheduler::new(registry, CompletionLedger::new(), harness_config());

    let failure = match engine.collect_pre_upgrade_state() {
        Err(f) => f,
        Ok(_) => panic!("a failing pre_check must fail the whole collection"),
    };
    assert!(failure.migration == "broken");
}

#[test]
fn failing_post_check_reports_the_originating_descriptor() {
    let mut registry = Registry::new();
    assert!(registry
        .register(ScriptedMigration::with_check_results(
            String::from("suspect"),
            0,
            true,
            false,
        ))
        .is_ok());
    let mut engine =
        UpgradeScheduler::new(registry, CompletionLedger::new(), harness_config());

    let snapshots = engine.collect_pre_upgrade_state().unwrap();
    engine.run_upgrade_tick();
    let failure = match engine.verify_post_upgrade_state(&snapshots) {
        Err(f) => f,
        Ok(()) => panic!("a failing post_check must be reported"),
    };
    assert!(failure.migration == "suspect");
    // a verification failure never rolls back applied migrations
    assert!(engine.is_fully_upgraded());
}
