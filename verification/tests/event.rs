use msg_supabase::prelude::{FetchView, PrimaryKeyResponse, SupabaseRow, SupabaseView};
use msg_supabase::prelude::{SyncComplete, SyncError, SyncToSupabase, ViewFetchFailed};

#[derive(Clone, Debug, PartialEq)]
struct TestData {
    value: i32,
}

impl SupabaseRow for TestData {
    type Response = PrimaryKeyResponse;

    fn table_name() -> &'static str {
        "test"
    }
    fn primary_key_column() -> &'static str {
        "id"
    }
    fn unique_columns() -> &'static [&'static str] {
        &[]
    }
    fn sync_key(&self) -> Option<String> {
        Some(format!("test_{}", self.value))
    }
}

#[derive(Debug)]
struct TestScore {}

impl SupabaseView for TestScore {
    fn view_name() -> &'static str {
        "highscores"
    }
}

#[test]
fn test_sync_event_new() {
    let data = TestData { value: 42 };
    let event = SyncToSupabase::new(data.clone());
    assert_eq!(event.rows, vec![data]);
    assert!(event.sync_keys.is_empty());
}

#[test]
fn batch_events_carry_every_row() {
    let rows = vec![TestData { value: 1 }, TestData { value: 2 }];
    let event = SyncToSupabase::batch(rows.clone());
    assert_eq!(event.rows, rows);
}

#[test]
fn test_sync_event_with_key() {
    let data = TestData { value: 42 };
    let event = SyncToSupabase::with_key(data.clone(), "custom_key");
    assert_eq!(event.sync_keys, vec!["custom_key".to_string()]);
}

#[test]
fn test_effective_sync_key_custom() {
    let data = TestData { value: 42 };
    let event = SyncToSupabase::with_key(data, "custom");
    assert_eq!(event.effective_sync_key(0), Some("custom".to_string()));
}

#[test]
fn test_effective_sync_key_trait() {
    let data = TestData { value: 42 };
    let event = SyncToSupabase::new(data);
    assert_eq!(event.effective_sync_key(0), Some("test_42".to_string()));
}

#[test]
fn given_keys_win_over_the_rows_own() {
    let event = SyncToSupabase::batch_with_keys(
        vec![TestData { value: 1 }, TestData { value: 1 }],
        vec!["kill_0".to_string(), "kill_1".to_string()],
    );
    assert_eq!(event.effective_sync_key(0), Some("kill_0".to_string()));
    assert_eq!(event.effective_sync_key(1), Some("kill_1".to_string()));
}

#[test]
fn batch_rows_keep_their_own_keys() {
    let event = SyncToSupabase::batch(vec![TestData { value: 1 }, TestData { value: 2 }]);
    assert_eq!(event.effective_sync_key(0), Some("test_1".to_string()));
    assert_eq!(event.effective_sync_key(1), Some("test_2".to_string()));
    assert_eq!(event.effective_sync_key(2), None);
}

#[test]
fn test_sync_complete() {
    let event = SyncComplete::<TestData>::new(Vec::new(), vec![123], true, 201);
    assert_eq!(event.primary_key(), Some(123));
    assert!(event.was_insert);
    assert_eq!(event.status, 201);
}

#[test]
fn test_sync_error() {
    let event = SyncError::<TestData>::new("Failed");
    assert_eq!(event.message, "Failed");
    assert!(event.status.is_none());
}

#[test]
fn test_sync_error_with_response() {
    let event =
        SyncError::<TestData>::with_response("Bad request", 400, Some("Invalid JSON".into()));
    assert_eq!(event.message, "Bad request");
    assert_eq!(event.status, Some(400));
    assert_eq!(event.body, Some("Invalid JSON".to_string()));
}

#[test]
fn rows_past_the_given_keys_keep_their_own() {
    let event = SyncToSupabase::batch_with_keys(
        vec![TestData { value: 1 }, TestData { value: 2 }],
        vec!["first".to_string()],
    );
    assert_eq!(event.effective_sync_key(0), Some("first".to_string()));
    assert_eq!(event.effective_sync_key(1), Some("test_2".to_string()));
    assert_eq!(event.effective_sync_key(2), None);
}

#[test]
fn a_key_past_the_rows_is_still_a_key() {
    let event = SyncToSupabase::<TestData>::batch_with_keys(Vec::new(), vec!["k".to_string()]);
    assert_eq!(event.effective_sync_key(0), Some("k".to_string()));
}

#[test]
fn a_completion_without_keys_has_no_first_one() {
    let event = SyncComplete::<TestData>::new(Vec::new(), Vec::new(), false, 200);
    assert_eq!(event.primary_key(), None);
    let event = SyncComplete::<TestData>::new(
        vec![PrimaryKeyResponse { id: 5 }],
        vec![5, 6],
        true,
        201,
    );
    assert_eq!(event.primary_key(), Some(5));
    assert_eq!(event.rows, vec![PrimaryKeyResponse { id: 5 }]);
}

#[test]
fn a_copied_error_tells_the_same() {
    let event = SyncError::<TestData>::with_response("late", 504, None);
    let copy = event.clone();
    assert_eq!(copy.message, "late");
    assert_eq!(copy.status, Some(504));
    assert_eq!(copy.body, None);
}

#[test]
fn view_events_carry_what_they_are_given() {
    let _ask: FetchView<TestScore> = FetchView::default();
    let _ask_again: FetchView<TestScore> = FetchView::new();
    let event = ViewFetchFailed::<TestScore>::new("offline", None);
    assert_eq!(event.message, "offline");
    assert_eq!(event.status, None);
    let event = ViewFetchFailed::<TestScore>::new("gone".to_string(), Some(410));
    assert_eq!(event.message, "gone");
    assert_eq!(event.status, Some(410));
}
