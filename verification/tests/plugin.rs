use msg_supabase::http::Response;
use msg_supabase::plugin::{apply_outcome, apply_outcomes, can_apply, plan_sync, PendingSync};
use msg_supabase::plugin::{SyncNotice, SyncPlan};
use msg_supabase::prelude::{PrimaryKeyResponse, RequestError, SaveMode, SupabaseConfig};
use msg_supabase::prelude::{SupabaseConnection, SupabasePlugin, SupabaseRow, SyncConfig};
use msg_supabase::prelude::{SyncOutcome, SyncState, SyncToSupabase};
use std::collections::HashMap;

#[derive(Clone, Debug, PartialEq)]
struct TestRecord {
    session_id: i64,
    value: String,
}

impl SupabaseRow for TestRecord {
    type Response = PrimaryKeyResponse;

    fn table_name() -> &'static str {
        "test_records"
    }
    fn primary_key_column() -> &'static str {
        "id"
    }
    fn unique_columns() -> &'static [&'static str] {
        &["session_id"]
    }
    fn returning() -> Option<&'static str> {
        Some("id")
    }
    fn sync_key(&self) -> Option<String> {
        Some(format!("record_{}", self.session_id))
    }
}

/// A row without unique columns, key or returned columns.
#[derive(Clone, Debug, PartialEq)]
struct LogRow {}

impl SupabaseRow for LogRow {
    type Response = PrimaryKeyResponse;

    fn table_name() -> &'static str {
        "logs"
    }
    fn primary_key_column() -> &'static str {
        "log_id"
    }
    fn unique_columns() -> &'static [&'static str] {
        &[]
    }
}

fn record(session_id: i64) -> TestRecord {
    TestRecord {
        session_id,
        value: "test".to_string(),
    }
}

fn connection() -> SupabaseConnection {
    SupabaseConnection::new("https://test.supabase.co", "key")
}

fn config(save_mode: SaveMode) -> SupabaseConfig<TestRecord> {
    SupabaseConfig::new(connection(), SyncConfig::new(save_mode))
}

fn list_json(rows: &[&TestRecord]) -> Result<String, serde_json::Error> {
    serde_json::to_string(&rows.iter().map(|row| row.session_id).collect::<Vec<i64>>())
}

fn row_json(row: &TestRecord) -> Result<String, serde_json::Error> {
    serde_json::to_string(&row.session_id)
}

fn parse_keys(body: &str) -> Result<Vec<PrimaryKeyResponse>, serde_json::Error> {
    let rows: Vec<HashMap<String, i64>> = serde_json::from_str(body)?;
    rows.into_iter()
        .map(|row| match row.get("id") {
            Some(id) => Ok(PrimaryKeyResponse { id: *id }),
            None => Err(serde::de::Error::missing_field("id")),
        })
        .collect()
}

fn response(status: u16, body: &str) -> Response {
    Response {
        ok: (200..300).contains(&status),
        status,
        bytes: body.as_bytes().to_vec(),
    }
}

fn success(
    primary_keys: Vec<i64>,
    was_insert: bool,
    sync_keys: Vec<String>,
) -> SyncOutcome<TestRecord> {
    SyncOutcome::Success {
        rows: Vec::new(),
        primary_keys,
        was_insert,
        status: 201,
        sync_keys,
    }
}

fn failure(error: RequestError, sync_keys: Vec<String>) -> SyncOutcome<TestRecord> {
    SyncOutcome::Failure { error, sync_keys }
}

fn written<'a>(plan: SyncPlan<'a, TestRecord>) -> (Vec<i64>, Vec<String>) {
    match plan {
        SyncPlan::Write { rows, sync_keys, .. } => {
            (rows.iter().map(|row| row.session_id).collect(), sync_keys)
        }
        SyncPlan::Nothing => panic!("nothing is sent"),
        SyncPlan::Patch { .. } => panic!("a row is patched"),
    }
}

#[test]
fn test_plugin_builder() {
    let plugin = SupabasePlugin::<TestRecord>::new("https://test.supabase.co", "key123")
        .with_save_mode(SaveMode::Update)
        .with_table("custom_table")
        .with_return_representation(false);

    assert_eq!(plugin.config.save_mode, SaveMode::Update);
    assert_eq!(
        plugin.config.table_override,
        Some("custom_table".to_string())
    );
    assert!(!plugin.config.return_representation);
}

#[test]
fn test_supabase_config_creation() {
    let supabase_config = config(SaveMode::Upsert);

    assert_eq!(supabase_config.config.save_mode, SaveMode::Upsert);
    assert_eq!(supabase_config.connection.url, "https://test.supabase.co");
}

#[test]
fn insert_mode_writes_without_conflict_columns() {
    let options = config(SaveMode::Insert).write_options();
    assert!(!options.is_upsert());
    assert_eq!(options.query().to_query_string(), "select=id");
}

#[test]
fn upsert_mode_takes_conflict_columns_from_the_row_type() {
    let options = config(SaveMode::Upsert).write_options();
    assert!(options.is_upsert());
    assert_eq!(
        options.query().to_query_string(),
        "on_conflict=session_id&select=id"
    );
}

#[test]
fn already_synced_rows_are_not_sent_again() {
    let plugin = SupabasePlugin::<TestRecord>::new("https://test.supabase.co", "key");
    let config = SupabaseConfig::new(plugin.connection, plugin.config);

    // Pretend the first record already reached the database.
    let mut state = SyncState::<TestRecord>::new();
    state.mark_synced("record_1".to_string());

    // A sync of only that record queues no request, so no outcome arrives.
    let event = SyncToSupabase::new(record(1));
    let plan = plan_sync(&event, &config, Some(&mut state));
    assert!(matches!(plan, SyncPlan::Nothing));

    assert_eq!(state.sync_count(), 1);
}

#[test]
fn outcomes_reach_the_sync_state_and_fire_completion() {
    let mut state = SyncState::<TestRecord>::new();
    let outcomes = vec![SyncOutcome::Success {
        rows: Vec::new(),
        primary_keys: vec![7, 8],
        was_insert: true,
        status: 201,
        sync_keys: vec!["record_1".to_string()],
    }];
    assert!(can_apply(&state, &outcomes));
    let notices = apply_outcomes(&mut state, outcomes);

    assert_eq!(state.primary_key(), Some(7));
    assert!(state.is_synced("record_1"));
    match &notices[..] {
        [SyncNotice::Complete(event)] => assert_eq!(event.primary_keys, vec![7, 8]),
        _ => panic!("no completion was announced"),
    }
}

#[test]
fn a_plugin_starts_out_inserting() {
    let plugin = SupabasePlugin::<TestRecord>::new("https://test.supabase.co", "key123");
    assert_eq!(plugin.connection.api_key, "key123");
    assert_eq!(plugin.config.save_mode, SaveMode::Insert);
    assert!(plugin.config.return_representation);
    assert_eq!(plugin.config.table_override, None);
    let plugin = plugin.with_config(SyncConfig::new(SaveMode::Upsert));
    assert_eq!(plugin.config.save_mode, SaveMode::Upsert);
    assert_eq!(plugin.connection.url, "https://test.supabase.co");
}

#[test]
fn write_options_of_a_row_type_without_columns() {
    let options = |mode: SaveMode, rows: bool| {
        let sync = SyncConfig::new(mode).with_return_representation(rows);
        SupabaseConfig::<LogRow>::new(connection(), sync).write_options()
    };
    assert!(!options(SaveMode::Insert, true).is_upsert());
    assert!(!options(SaveMode::Update, true).is_upsert());
    assert!(options(SaveMode::Upsert, true).is_upsert());
    assert!(options(SaveMode::Upsert, true).returns_rows());
    assert!(!options(SaveMode::Upsert, false).returns_rows());
    assert_eq!(options(SaveMode::Upsert, true).query().to_query_string(), "");
}

#[test]
fn asked_columns_are_returned_whatever_the_config_says() {
    let sync = SyncConfig::new(SaveMode::Insert).with_return_representation(false);
    let options = SupabaseConfig::<TestRecord>::new(connection(), sync).write_options();
    assert!(options.returns_rows());
    assert_eq!(options.query().to_query_string(), "select=id");
}

#[test]
fn a_batch_leaves_out_what_was_synced() {
    let mut state = SyncState::<TestRecord>::new();
    state.mark_synced("record_2".to_string());
    let event = SyncToSupabase::batch(vec![record(3), record(2), record(1)]);
    let plan = plan_sync(&event, &config(SaveMode::Insert), Some(&mut state));
    let (rows, keys) = written(plan);
    assert_eq!(rows, vec![3, 1]);
    assert_eq!(keys, vec!["record_3".to_string(), "record_1".to_string()]);
}

#[test]
fn other_modes_send_every_row() {
    let mut state = SyncState::<TestRecord>::new();
    state.mark_synced("record_2".to_string());
    let event = SyncToSupabase::batch(vec![record(3), record(2)]);
    for mode in [SaveMode::Update, SaveMode::Upsert] {
        let (rows, _) = written(plan_sync(&event, &config(mode), Some(&mut state)));
        assert_eq!(rows, vec![3, 2]);
    }
}

#[test]
fn without_a_state_every_row_is_sent() {
    let event = SyncToSupabase::batch(vec![record(3), record(2)]);
    let (rows, _) = written(plan_sync(&event, &config(SaveMode::Insert), None));
    assert_eq!(rows, vec![3, 2]);
    let empty = SyncToSupabase::<TestRecord>::batch(Vec::new());
    let plan = plan_sync(&empty, &config(SaveMode::Upsert), None);
    assert!(matches!(plan, SyncPlan::Nothing));
}

#[test]
fn a_resent_list_sends_only_what_is_new() {
    let mut state = SyncState::<TestRecord>::new();
    let config = config(SaveMode::Insert);
    let event = SyncToSupabase::batch(vec![record(1), record(2)]);
    let (_, keys) = written(plan_sync(&event, &config, Some(&mut state)));
    apply_outcome(&mut state, success(vec![10, 11], true, keys));

    assert!(matches!(plan_sync(&event, &config, Some(&mut state)), SyncPlan::Nothing));
    let longer = SyncToSupabase::batch(vec![record(1), record(2), record(3)]);
    let (rows, keys) = written(plan_sync(&longer, &config, Some(&mut state)));
    assert_eq!(rows, vec![3]);
    assert_eq!(keys, vec!["record_3".to_string()]);
}

#[test]
fn update_mode_writes_once_and_then_patches() {
    let mut state = SyncState::<TestRecord>::new();
    let config = config(SaveMode::Update);
    let event = SyncToSupabase::new(record(1));
    let (_, keys) = written(plan_sync(&event, &config, Some(&mut state)));
    apply_outcome(&mut state, success(vec![42], true, keys));

    for _ in 0..2 {
        let changed = SyncToSupabase::new(record(1));
        match plan_sync(&changed, &config, Some(&mut state)) {
            SyncPlan::Patch {
                row,
                primary_key,
                table,
                sync_keys,
            } => {
                assert_eq!(*row, record(1));
                assert_eq!(primary_key, 42);
                assert_eq!(table, "test_records");
                apply_outcome(&mut state, success(vec![42], false, sync_keys));
            }
            _ => panic!("no row is patched"),
        }
        apply_outcome(
            &mut state,
            failure(RequestError::network("offline"), Vec::new()),
        );
    }
    assert_eq!(state.primary_key(), Some(42));
    assert_eq!(state.sync_count(), 3);

    let two = SyncToSupabase::batch(vec![record(1), record(2)]);
    let (rows, _) = written(plan_sync(&two, &config, Some(&mut state)));
    assert_eq!(rows, vec![1, 2]);
}

#[test]
fn a_plan_builds_its_request() {
    let event = SyncToSupabase::batch(vec![record(5), record(6)]);
    let config = config(SaveMode::Upsert);
    let plan = plan_sync(&event, &config, None);
    let request = plan
        .start(&connection(), list_json, row_json)
        .expect("rows are sent")
        .unwrap();
    assert_eq!(request.method, "POST");
    assert_eq!(
        request.url,
        "https://test.supabase.co/rest/v1/test_records?on_conflict=session_id&select=id"
    );
    assert_eq!(request.body, b"[5,6]");
    assert_eq!(
        request.headers.get("prefer"),
        Some("resolution=merge-duplicates,return=representation")
    );
}

#[test]
fn a_patch_builds_its_request() {
    let mut state = SyncState::<TestRecord>::new();
    state.set_primary_key(9);
    let event = SyncToSupabase::new(record(5));
    let supabase_config = SupabaseConfig::<TestRecord>::new(
        connection(),
        SyncConfig::new(SaveMode::Update).with_table("archive"),
    );
    let plan = plan_sync(&event, &supabase_config, Some(&mut state));
    let request = plan
        .start(&connection(), list_json, row_json)
        .expect("a row is sent")
        .unwrap();
    assert_eq!(request.method, "PATCH");
    assert_eq!(
        request.url,
        "https://test.supabase.co/rest/v1/archive?id=eq.9"
    );
    assert_eq!(request.body, b"5");

    let plan: SyncPlan<'_, TestRecord> = SyncPlan::Nothing;
    assert!(plan.start(&connection(), list_json, row_json).is_none());
}

#[test]
fn a_plan_that_does_not_serialize_is_reported() {
    let refuse = |_: &[&TestRecord]| -> Result<String, serde_json::Error> {
        Err(serde::ser::Error::custom("cyclic"))
    };
    let event = SyncToSupabase::new(record(5));
    let config = config(SaveMode::Insert);
    let plan = plan_sync(&event, &config, None);
    let err = plan
        .start(&connection(), refuse, row_json)
        .expect("rows are sent")
        .unwrap_err();
    assert_eq!(err.message, "Serialization failed: cyclic");
}

#[test]
fn a_finished_write_reports_what_came_back() {
    let event = SyncToSupabase::new(record(5));
    let config = config(SaveMode::Insert);
    let pending = plan_sync(&event, &config, None).pending();
    assert!(pending.asked_for_rows);
    let outcome: SyncOutcome<TestRecord> =
        pending.finish(Ok(response(201, r#"[{"id":3}]"#)), parse_keys, parse_keys);
    match outcome {
        SyncOutcome::Success {
            rows,
            primary_keys,
            was_insert,
            status,
            sync_keys,
        } => {
            assert_eq!(rows, vec![PrimaryKeyResponse { id: 3 }]);
            assert_eq!(primary_keys, vec![3]);
            assert!(was_insert);
            assert_eq!(status, 201);
            assert_eq!(sync_keys, vec!["record_5".to_string()]);
        }
        SyncOutcome::Failure { .. } => panic!("the write failed"),
    }
}

#[test]
fn a_write_that_asked_for_nothing_brings_nothing() {
    let pending = PendingSync {
        patched: None,
        asked_for_rows: false,
        sync_keys: Vec::new(),
    };
    let outcome: SyncOutcome<LogRow> =
        pending.finish(Ok(response(201, "")), parse_keys, parse_keys);
    match outcome {
        SyncOutcome::Success {
            rows,
            primary_keys,
            was_insert,
            status,
            ..
        } => {
            assert!(rows.is_empty() && primary_keys.is_empty());
            assert!(was_insert);
            assert_eq!(status, 201);
        }
        SyncOutcome::Failure { .. } => panic!("the write failed"),
    }
}

#[test]
fn a_finished_patch_keeps_its_key() {
    let pending = PendingSync {
        patched: Some(9),
        asked_for_rows: false,
        sync_keys: vec!["k".to_string()],
    };
    let outcome: SyncOutcome<TestRecord> =
        pending.finish(Ok(response(204, "")), parse_keys, parse_keys);
    match outcome {
        SyncOutcome::Success {
            primary_keys,
            was_insert,
            status,
            sync_keys,
            ..
        } => {
            assert_eq!(primary_keys, vec![9]);
            assert!(!was_insert);
            assert_eq!(status, 200);
            assert_eq!(sync_keys, vec!["k".to_string()]);
        }
        SyncOutcome::Failure { .. } => panic!("the patch failed"),
    }
}

#[test]
fn a_failed_reply_fails_the_sync() {
    for patched in [None, Some(9)] {
        let pending = PendingSync {
            patched,
            asked_for_rows: true,
            sync_keys: vec!["mine".to_string()],
        };
        let outcome: SyncOutcome<TestRecord> =
            pending.finish(Ok(response(403, "denied")), parse_keys, parse_keys);
        match outcome {
            SyncOutcome::Failure { error, sync_keys } => {
                assert_eq!(error.message, "Request failed with status 403");
                assert_eq!(error.body, Some("denied".to_string()));
                assert_eq!(sync_keys, vec!["mine".to_string()]);
            }
            SyncOutcome::Success { .. } => panic!("the sync succeeded"),
        }
    }
}

#[test]
fn failures_are_announced_and_change_nothing() {
    let mut state = SyncState::<TestRecord>::new();
    state.set_primary_key(4);
    let http = RequestError::http("bad", 400, Some("body".to_string()));
    match apply_outcome(&mut state, failure(http, Vec::new())) {
        SyncNotice::Error(event) => {
            assert_eq!(event.message, "bad");
            assert_eq!(event.status, Some(400));
            assert_eq!(event.body, Some("body".to_string()));
        }
        SyncNotice::Complete(_) => panic!("a completion was announced"),
    }
    let network = RequestError {
        message: "offline".to_string(),
        status: None,
        body: Some("dropped".to_string()),
    };
    match apply_outcome(&mut state, failure(network, Vec::new())) {
        SyncNotice::Error(event) => {
            assert_eq!(event.message, "offline");
            assert_eq!(event.status, None);
            assert_eq!(event.body, None);
        }
        SyncNotice::Complete(_) => panic!("a completion was announced"),
    }
    assert_eq!(state.primary_key(), Some(4));
    assert_eq!(state.sync_count(), 0);
    assert_eq!(state.synced_count(), 0);
}

#[test]
fn every_success_is_counted() {
    let mut state = SyncState::<TestRecord>::new();
    let keys = |names: &[&str]| names.iter().map(|n| n.to_string()).collect::<Vec<String>>();
    let outcomes = vec![
        success(Vec::new(), true, Vec::new()),
        success(vec![5], true, keys(&["a", "b"])),
        failure(RequestError::network("offline"), Vec::new()),
        success(vec![6], false, keys(&["a"])),
    ];
    assert!(can_apply(&state, &outcomes));
    let notices = apply_outcomes(&mut state, outcomes);
    assert_eq!(notices.len(), 4);
    assert!(matches!(notices[0], SyncNotice::Complete(_)));
    assert!(matches!(notices[2], SyncNotice::Error(_)));
    assert_eq!(state.sync_count(), 4);
    assert_eq!(state.synced_count(), 2);
    assert_eq!(state.primary_key(), Some(5));
    assert!(state.initial_insert_done());
    assert!(state.is_synced("a") && state.is_synced("b"));
}

#[test]
fn a_synced_key_never_goes_out_again() {
    let mut state = SyncState::<TestRecord>::new();
    let config = config(SaveMode::Insert);
    apply_outcome(&mut state, success(Vec::new(), true, vec!["mine".to_string()]));
    for _ in 0..3 {
        let event = SyncToSupabase::with_key(record(1), "mine");
        let plan = plan_sync(&event, &config, Some(&mut state));
        assert!(matches!(plan, SyncPlan::Nothing));
        apply_outcome(&mut state, success(vec![1], true, vec!["other".to_string()]));
        apply_outcome(
            &mut state,
            failure(RequestError::network("offline"), Vec::new()),
        );
    }
}

#[test]
fn a_key_under_way_is_not_sent_a_second_time() {
    let mut state = SyncState::<TestRecord>::new();
    let config = config(SaveMode::Insert);
    let first = SyncToSupabase::with_key(record(1), "k");
    let (_, keys) = written(plan_sync(&first, &config, Some(&mut state)));
    assert_eq!(keys, vec!["k".to_string()]);
    assert!(state.is_in_flight("k"));
    assert!(!state.is_synced("k"));

    let second = SyncToSupabase::with_key(record(2), "k");
    let plan = plan_sync(&second, &config, Some(&mut state));
    assert!(matches!(plan, SyncPlan::Nothing));

    apply_outcome(&mut state, success(vec![1], true, keys));
    assert!(!state.is_in_flight("k"));
    assert!(state.is_synced("k"));
    let plan = plan_sync(&second, &config, Some(&mut state));
    assert!(matches!(plan, SyncPlan::Nothing));
}

#[test]
fn a_batch_sends_a_repeated_key_once() {
    let keys = |names: &[&str]| names.iter().map(|n| n.to_string()).collect::<Vec<String>>();
    let event = SyncToSupabase::batch_with_keys(
        vec![record(1), record(2), record(3)],
        keys(&["k", "k", "l"]),
    );
    let mut state = SyncState::<TestRecord>::new();
    for state in [Some(&mut state), None] {
        let (rows, sent) = written(plan_sync(&event, &config(SaveMode::Insert), state));
        assert_eq!(rows, vec![1, 3]);
        assert_eq!(sent, keys(&["k", "l"]));
    }
    let (rows, _) = written(plan_sync(&event, &config(SaveMode::Upsert), Some(&mut state)));
    assert_eq!(rows, vec![1, 2, 3]);
}

#[test]
fn a_failed_key_can_go_out_again() {
    let mut state = SyncState::<TestRecord>::new();
    let config = config(SaveMode::Insert);
    let event = SyncToSupabase::batch(vec![record(1), record(2)]);
    let (rows, keys) = written(plan_sync(&event, &config, Some(&mut state)));
    apply_outcome(&mut state, failure(RequestError::network("offline"), keys));
    assert!(!state.is_in_flight("record_1"));
    let (again, keys) = written(plan_sync(&event, &config, Some(&mut state)));
    assert_eq!(again, rows);
    apply_outcome(&mut state, success(Vec::new(), true, keys));
    assert_eq!(state.synced_count(), 2);
}

#[test]
fn overlapping_requests_keep_their_own_keys() {
    let mut state = SyncState::<TestRecord>::new();
    let config = config(SaveMode::Insert);
    let one = SyncToSupabase::batch(vec![record(1), record(2)]);
    let (_, first) = written(plan_sync(&one, &config, Some(&mut state)));
    let two = SyncToSupabase::batch(vec![record(2), record(3)]);
    let (rows, second) = written(plan_sync(&two, &config, Some(&mut state)));
    assert_eq!(rows, vec![3]);

    apply_outcome(&mut state, failure(RequestError::network("offline"), first));
    assert!(state.is_in_flight("record_3"));
    let three = SyncToSupabase::batch(vec![record(1), record(2), record(3)]);
    let (rows, third) = written(plan_sync(&three, &config, Some(&mut state)));
    assert_eq!(rows, vec![1, 2]);
    apply_outcome(&mut state, success(vec![9], true, second));
    apply_outcome(&mut state, success(vec![7, 8], true, third));
    assert_eq!(state.synced_count(), 3);
    assert_eq!(state.sync_count(), 3);
    assert!(matches!(plan_sync(&three, &config, Some(&mut state)), SyncPlan::Nothing));
}

#[test]
fn rows_without_a_key_always_go_out() {
    let config = SupabaseConfig::<LogRow>::new(connection(), SyncConfig::new(SaveMode::Insert));
    let mut state = SyncState::<LogRow>::new();
    let event = SyncToSupabase::batch(vec![LogRow {}, LogRow {}]);
    for _ in 0..2 {
        match plan_sync(&event, &config, Some(&mut state)) {
            SyncPlan::Write { rows, sync_keys, .. } => {
                assert_eq!(rows.len(), 2);
                assert!(sync_keys.is_empty());
            }
            _ => panic!("nothing is written"),
        }
    }
}

#[test]
fn a_request_that_was_never_built_fails_with_its_keys() {
    let pending = PendingSync {
        patched: None,
        asked_for_rows: true,
        sync_keys: vec!["k".to_string()],
    };
    let outcome: SyncOutcome<TestRecord> = pending.fail(RequestError::network("cyclic"));
    match outcome {
        SyncOutcome::Failure { error, sync_keys } => {
            assert_eq!(error.message, "cyclic");
            assert_eq!(sync_keys, vec!["k".to_string()]);
        }
        SyncOutcome::Success { .. } => panic!("the sync succeeded"),
    }
}

#[test]
fn update_mode_learns_its_key_whatever_the_config_says() {
    let sync = SyncConfig::new(SaveMode::Update).with_return_representation(false);
    let config = SupabaseConfig::<LogRow>::new(connection(), sync);
    assert!(!config.write_options().returns_rows());
    let mut state = SyncState::<LogRow>::new();
    let event = SyncToSupabase::new(LogRow {});
    let plan = plan_sync(&event, &config, Some(&mut state));
    match &plan {
        SyncPlan::Write { options, .. } => {
            assert!(options.returns_rows());
            assert_eq!(options.prefer_header(), "return=representation");
        }
        _ => panic!("nothing is written"),
    }
    let pending = plan.pending();
    assert!(pending.asked_for_rows);
    let outcome: SyncOutcome<LogRow> =
        pending.finish(Ok(response(201, r#"[{"id":3}]"#)), parse_keys, parse_keys);
    apply_outcome(&mut state, outcome);
    assert_eq!(state.primary_key(), Some(3));
    match plan_sync(&event, &config, Some(&mut state)) {
        SyncPlan::Patch { primary_key, .. } => assert_eq!(primary_key, 3),
        _ => panic!("no row is patched"),
    }
}

#[test]
fn other_modes_ask_for_rows_only_when_told() {
    for mode in [SaveMode::Insert, SaveMode::Upsert] {
        let sync = SyncConfig::new(mode).with_return_representation(false);
        let config = SupabaseConfig::<LogRow>::new(connection(), sync);
        let event = SyncToSupabase::new(LogRow {});
        match plan_sync(&event, &config, None) {
            SyncPlan::Write { options, .. } => assert!(!options.returns_rows()),
            _ => panic!("nothing is written"),
        }
    }
}
