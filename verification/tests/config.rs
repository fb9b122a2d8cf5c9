use msg_supabase::prelude::{PrimaryKeyResponse, SaveMode, SupabaseRow, SyncConfig};
use msg_supabase::prelude::{SyncState, SyncToSupabase};

#[derive(Clone, Debug, PartialEq)]
struct TestData {
    id: i64,
    value: String,
}

impl SupabaseRow for TestData {
    type Response = PrimaryKeyResponse;

    fn table_name() -> &'static str {
        "test_data"
    }
    fn primary_key_column() -> &'static str {
        "id"
    }
    fn unique_columns() -> &'static [&'static str] {
        &["id"]
    }
}

#[test]
fn test_sync_config_default() {
    let config = SyncConfig::default();
    assert_eq!(config.save_mode, SaveMode::Insert);
}

#[test]
fn test_sync_config_update_mode() {
    let config = SyncConfig::default().with_save_mode(SaveMode::Update);
    assert_eq!(config.save_mode, SaveMode::Update);
}

#[test]
fn test_supabase_row_trait() {
    assert_eq!(TestData::table_name(), "test_data");
    assert_eq!(TestData::primary_key_column(), "id");
    assert_eq!(TestData::unique_columns(), &["id"]);
}

#[test]
fn test_sync_to_supabase_event() {
    let data = TestData {
        id: 1,
        value: "test".to_string(),
    };
    let event = SyncToSupabase::new(data.clone());
    assert_eq!(event.rows, vec![data]);
}

#[test]
fn test_sync_state_default() {
    let state = SyncState::<TestData>::default();
    assert!(state.synced_keys().is_empty());
    assert!(state.primary_key().is_none());
}

#[test]
fn test_sync_state_mark_synced() {
    let mut state = SyncState::<TestData>::default();
    state.mark_synced("key1".to_string());
    state.mark_synced("key2".to_string());
    assert!(state.is_synced("key1"));
    assert!(state.is_synced("key2"));
    assert!(!state.is_synced("key3"));
}

#[test]
fn test_sync_state_set_primary_key() {
    let mut state = SyncState::<TestData>::default();
    assert!(state.primary_key().is_none());
    state.set_primary_key(42);
    assert_eq!(state.primary_key(), Some(42));
}

#[test]
fn a_row_type_says_nothing_unless_it_does() {
    let data = TestData {
        id: 1,
        value: String::new(),
    };
    assert_eq!(data.sync_key(), None);
    assert_eq!(TestData::returning(), None);
}

#[test]
fn config_builders_change_one_thing_each() {
    let config = SyncConfig::new(SaveMode::Upsert);
    assert_eq!(config.save_mode, SaveMode::Upsert);
    assert!(config.return_representation);
    assert_eq!(config.table_override, None);

    let config = config
        .with_return_representation(false)
        .with_table("elsewhere");
    assert_eq!(config.save_mode, SaveMode::Upsert);
    assert!(!config.return_representation);
    assert_eq!(config.table_override, Some("elsewhere".to_string()));
}

#[test]
fn the_override_wins_over_the_own_table() {
    assert_eq!(SyncConfig::default().table_for::<TestData>(), "test_data");
    let config = SyncConfig::default().with_table("elsewhere");
    assert_eq!(config.table_for::<TestData>(), "elsewhere");
}

#[test]
fn inserting_is_the_default_save_mode() {
    assert_eq!(SaveMode::default(), SaveMode::Insert);
}
