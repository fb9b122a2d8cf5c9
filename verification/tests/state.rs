use msg_supabase::prelude::{PrimaryKeyResponse, SupabaseRow, SyncState};

#[derive(Clone)]
struct TestRow {}

impl SupabaseRow for TestRow {
    type Response = PrimaryKeyResponse;

    fn table_name() -> &'static str {
        "test"
    }
    fn primary_key_column() -> &'static str {
        "id"
    }
    fn unique_columns() -> &'static [&'static str] {
        &["id"]
    }
}

#[test]
fn test_default_state() {
    let state = SyncState::<TestRow>::default();
    assert!(state.synced_keys().is_empty());
    assert!(state.primary_key().is_none());
    assert_eq!(state.sync_count(), 0);
    assert!(!state.initial_insert_done());
}

#[test]
fn test_mark_synced() {
    let mut state = SyncState::<TestRow>::new();
    state.mark_synced("key1".to_string());
    assert!(state.is_synced("key1"));
    assert!(!state.is_synced("key2"));
    assert_eq!(state.sync_count(), 1);
}

#[test]
fn test_primary_key() {
    let mut state = SyncState::<TestRow>::new();
    assert!(!state.initial_insert_done());
    state.set_primary_key(123);
    assert_eq!(state.primary_key(), Some(123));
    assert!(state.initial_insert_done());
}

#[test]
fn test_clear() {
    let mut state = SyncState::<TestRow>::new();
    state.mark_synced("key1".to_string());
    state.set_primary_key(123);
    state.clear();
    assert!(state.synced_keys().is_empty());
    assert!(state.primary_key().is_none());
    assert_eq!(state.sync_count(), 0);
    assert!(!state.initial_insert_done());
}

#[test]
fn marking_a_key_twice_counts_twice_and_keeps_one_key() {
    let mut state = SyncState::<TestRow>::new();
    state.mark_synced("a".to_string());
    state.mark_synced("a".to_string());
    state.mark_synced("b".to_string());
    state.increment_sync_count();
    assert_eq!(state.synced_count(), 2);
    assert_eq!(state.sync_count(), 4);
    assert!(state.synced_keys().contains("b"));
    assert!(state.is_synced("a"));
}

#[test]
fn an_insert_without_a_key_is_remembered() {
    let mut state = SyncState::<TestRow>::new();
    state.mark_initial_insert_done();
    assert!(state.initial_insert_done());
    assert_eq!(state.primary_key(), None);
    assert_eq!(state.sync_count(), 0);
}

#[test]
fn the_count_has_room_for_its_whole_range() {
    let mut state = SyncState::<TestRow>::new();
    assert!(state.can_count(0));
    assert!(state.can_count(4294967295));
    assert!(!state.can_count(4294967296));
    state.increment_sync_count();
    assert!(!state.can_count(4294967295));
}

#[test]
fn keys_under_way_are_launched_and_released() {
    let keys = |names: &[&str]| names.iter().map(|n| n.to_string()).collect::<Vec<String>>();
    let mut state = SyncState::<TestRow>::new();
    state.launch(&keys(&["a", "b", "a"]));
    assert!(state.is_in_flight("a") && state.is_in_flight("b"));
    assert!(!state.is_in_flight("c"));
    state.release(&keys(&["a", "c"]));
    assert!(!state.is_in_flight("a"));
    assert!(state.is_in_flight("b"));
    assert_eq!(state.synced_count(), 0);
    assert_eq!(state.sync_count(), 0);
    state.clear();
    assert!(!state.is_in_flight("b"));
}

#[test]
fn a_copied_state_goes_its_own_way() {
    let mut state = SyncState::<TestRow>::new();
    state.mark_synced("a".to_string());
    state.launch(&["b".to_string()]);
    state.set_primary_key(7);
    let copy = state.clone();
    state.mark_synced("c".to_string());
    state.release(&["b".to_string()]);
    assert!(copy.is_synced("a") && !copy.is_synced("c"));
    assert!(copy.is_in_flight("b") && !state.is_in_flight("b"));
    assert_eq!(copy.primary_key(), Some(7));
    assert_eq!(copy.sync_count(), 1);
}

#[test]
fn synced_keys_can_be_gone_through() {
    let mut state = SyncState::<TestRow>::new();
    for key in ["a", "b", "a"] {
        state.mark_synced(key.to_string());
    }
    assert_eq!(state.synced_keys().keys(), ["a".to_string(), "b".to_string()]);
    assert_eq!(state.synced_keys().len(), 2);
}
