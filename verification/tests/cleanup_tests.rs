//! The bounded-batch legacy-storage cleanup: seeding, clearing under a limit,
//! and the explicit failures for empty stores and unauthorized callers.

use migration_engine::cleanup::{CleanupError, LegacyStore, Origin};

/// A 32-byte key shaped like a hashed storage key: a fixed 16-byte prefix
/// followed by 16 bytes derived from the entry's index.
fn gen_dummy_entry(dummy: u8) -> Vec<u8> {
    let mut key = vec![0xABu8; 16];
    key.extend_from_slice(&[dummy; 16]);
    key
}

#[test]
fn test_call_clear_local_assets_storage() {
    let mut store = LegacyStore::new();

    let total_storage_entries: u8 = 5;
    for i in 0u8..total_storage_entries {
        let dummy_data = gen_dummy_entry(i);
        store.set(dummy_data.clone(), dummy_data);
    }

    // Check that the storage entries exist before attempting to remove them
    for i in 0u8..total_storage_entries {
        let dummy_data = gen_dummy_entry(i);
        assert!(store.contains_key(&dummy_data));
    }
    // Clear all storage entries
    assert!(store
        .clear_legacy_entries(Origin::Signed(1), u32::from(total_storage_entries))
        .is_ok());
    // Check that all storage entries got deleted
    for i in 0u8..total_storage_entries {
        let dummy_data = gen_dummy_entry(i);
        assert!(!store.contains_key(&dummy_data));
    }

    // No more storage entries to be removed (expect failure)
    assert!(store.clear_legacy_entries(Origin::Signed(1), 1).is_err());
}

#[test]
fn clear_removes_at_most_the_limit_oldest_first() {
    let mut store = LegacyStore::new();
    for i in 0u8..5 {
        let key = gen_dummy_entry(i);
        store.set(key, vec![i]);
    }

    let removed = store.clear_legacy_entries(Origin::Signed(7), 2);
    assert!(removed == Ok(2));
    assert!(store.len() == 3);
    assert!(!store.contains_key(&gen_dummy_entry(0)));
    assert!(!store.contains_key(&gen_dummy_entry(1)));
    assert!(store.contains_key(&gen_dummy_entry(2)));
    assert!(store.contains_key(&gen_dummy_entry(3)));
    assert!(store.contains_key(&gen_dummy_entry(4)));
}

#[test]
fn clear_with_limit_at_least_len_removes_all() {
    let mut store = LegacyStore::new();
    for i in 0u8..3 {
        store.set(gen_dummy_entry(i), vec![]);
    }
    assert!(store.clear_legacy_entries(Origin::Signed(1), 32) == Ok(3));
    assert!(store.len() == 0);
    // a subsequent call with any limit fails since none remain
    assert!(
        store.clear_legacy_entries(Origin::Signed(1), 32)
            == Err(CleanupError::NothingRemoved)
    );
}

#[test]
fn clear_with_zero_limit_is_an_error() {
    let mut store = LegacyStore::new();
    store.set(gen_dummy_entry(0), vec![]);
    assert!(
        store.clear_legacy_entries(Origin::Signed(1), 0)
            == Err(CleanupError::NothingRemoved)
    );
    assert!(store.len() == 1);
}

#[test]
fn clear_requires_a_signed_origin() {
    let mut store = LegacyStore::new();
    store.set(gen_dummy_entry(0), vec![]);
    assert!(store.clear_legacy_entries(Origin::Root, 1) == Err(CleanupError::BadOrigin));
    assert!(store.clear_legacy_entries(Origin::Unsigned, 1) == Err(CleanupError::BadOrigin));
    assert!(store.len() == 1, "an unauthorized call must remove nothing");
}
