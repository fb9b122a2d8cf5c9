use msg_supabase::http::Request;
use msg_supabase::prelude::{build_select_request, build_write_request, execute_batch_insert};
use msg_supabase::prelude::{execute_batch_upsert, execute_insert, execute_select, execute_sync};
use msg_supabase::prelude::{execute_update, execute_upsert, execute_write};
use msg_supabase::prelude::{execute_write_returning, Exchange, PrimaryKeyResponse, RequestError};
use msg_supabase::prelude::{SaveMode, SupabaseConnection, SupabaseRow, SyncConfig};
use msg_supabase::prelude::{TableQuery, WriteOptions};
use msg_supabase::request::{update_request, upsert_options, write_many, write_one, write_request};
use serde::ser::{Error, SerializeStruct};
use serde::{Serialize, Serializer};

#[derive(Clone)]
struct TestRow {
    session_pk: i64,
    run_index: i32,
}

impl Serialize for TestRow {
    fn serialize<S: Serializer>(&self, serializer: S) -> Result<S::Ok, S::Error> {
        let mut row = serializer.serialize_struct("TestRow", 2)?;
        row.serialize_field("session_pk", &self.session_pk)?;
        row.serialize_field("run_index", &self.run_index)?;
        row.end()
    }
}

impl SupabaseRow for TestRow {
    type Response = PrimaryKeyResponse;

    fn table_name() -> &'static str {
        "runs"
    }
    fn primary_key_column() -> &'static str {
        "id"
    }
    fn unique_columns() -> &'static [&'static str] {
        &["session_pk", "run_index"]
    }
}

/// A row without unique columns.
#[derive(Clone)]
struct LogRow {}

impl SupabaseRow for LogRow {
    type Response = PrimaryKeyResponse;

    fn table_name() -> &'static str {
        "logs"
    }
    fn primary_key_column() -> &'static str {
        "log_id"
    }
    fn unique_columns() -> &'static [&'static str] {
        &[]
    }
}

fn row() -> TestRow {
    TestRow {
        session_pk: 7,
        run_index: 2,
    }
}

fn connection() -> SupabaseConnection {
    SupabaseConnection::new("https://test.supabase.co", "key123")
}

fn header(request: &Request, name: &str) -> Option<String> {
    request.headers.get(name).map(String::from)
}

fn json(rows: &[TestRow]) -> Result<String, serde_json::Error> {
    serde_json::to_string(rows)
}

fn refuse<T: ?Sized>(_: &T) -> Result<String, serde_json::Error> {
    Err(serde_json::Error::custom("no such value"))
}

fn sent<T>(exchange: Exchange<T>) -> Request {
    match exchange {
        Exchange::Send(request) => request,
        Exchange::Done(_) => panic!("nothing was sent"),
    }
}

fn failed<T>(exchange: Exchange<T>) -> RequestError {
    match exchange {
        Exchange::Done(Err(err)) => err,
        _ => panic!("no failure"),
    }
}

fn body(request: &Request) -> String {
    String::from_utf8(request.body.clone()).unwrap()
}

#[test]
fn test_connection_table_url() {
    assert_eq!(
        connection().table_url("users"),
        "https://test.supabase.co/rest/v1/users"
    );
}

#[test]
fn table_url_appends_query_parameters() {
    let query = TableQuery::new().select("*").limit(10);
    assert_eq!(
        connection().table_url_with("users", &query),
        "https://test.supabase.co/rest/v1/users?select=*&limit=10"
    );
}

#[test]
fn table_url_without_parameters_is_bare() {
    assert_eq!(
        connection().table_url_with("users", &TableQuery::new()),
        "https://test.supabase.co/rest/v1/users"
    );
}

#[test]
fn insert_options_ask_for_no_body() {
    let options = WriteOptions::new();
    assert!(!options.is_upsert());
    assert!(!options.returns_rows());
    assert_eq!(options.prefer_header(), "return=minimal");
    assert_eq!(options.query().to_query_string(), "");
}

#[test]
fn upsert_options_carry_conflict_columns() {
    let options = WriteOptions::new()
        .on_conflict(["session_pk", "run_index"])
        .returning("id,run_index");

    assert!(options.is_upsert());
    assert_eq!(
        options.prefer_header(),
        "resolution=merge-duplicates,return=representation"
    );
    assert_eq!(
        options.query().to_query_string(),
        "on_conflict=session_pk,run_index&select=id,run_index"
    );
}

#[test]
fn returning_all_omits_the_select() {
    let options = WriteOptions::new().returning_all();
    assert!(options.returns_rows());
    assert_eq!(options.prefer_header(), "return=representation");
    assert_eq!(options.query().to_query_string(), "");
}

#[test]
fn requesting_rows_upgrades_a_minimal_write() {
    let options = WriteOptions::new().on_conflict(["id"]).requesting_rows();
    assert!(options.returns_rows());
    assert!(options.is_upsert());
}

#[test]
fn upsert_options_follow_the_row_type() {
    let options = upsert_options::<TestRow>();
    assert_eq!(
        options.query().to_query_string(),
        "on_conflict=session_pk,run_index"
    );
}

#[test]
fn write_request_carries_rows_and_headers() {
    let rows = [TestRow {
        session_pk: 7,
        run_index: 2,
    }];
    let options = WriteOptions::new()
        .on_conflict(["session_pk", "run_index"])
        .returning("id");

    let request = build_write_request(&connection(), &rows, "runs", &options, json).unwrap();

    assert_eq!(request.method, "POST");
    assert_eq!(
        request.url,
        "https://test.supabase.co/rest/v1/runs?on_conflict=session_pk,run_index&select=id"
    );
    assert_eq!(
        String::from_utf8(request.body.clone()).unwrap(),
        r#"[{"session_pk":7,"run_index":2}]"#
    );
    assert_eq!(header(&request, "apikey").as_deref(), Some("key123"));
    assert_eq!(
        header(&request, "authorization").as_deref(),
        Some("Bearer key123")
    );
    assert_eq!(
        header(&request, "prefer").as_deref(),
        Some("resolution=merge-duplicates,return=representation")
    );
}

#[test]
fn select_request_is_a_get_without_a_body() {
    let query = TableQuery::new().select("*").limit(1000);
    let request = build_select_request(&connection(), "highscores_runs", &query);

    assert_eq!(request.method, "GET");
    assert!(request.body.is_empty());
    assert_eq!(
        request.url,
        "https://test.supabase.co/rest/v1/highscores_runs?select=*&limit=1000"
    );
    assert_eq!(header(&request, "apikey").as_deref(), Some("key123"));
}

#[test]
fn empty_write_completes_without_a_request() {
    let rows: [TestRow; 0] = [];
    let exchange = execute_write(&connection(), &rows, "runs", &WriteOptions::new(), json);
    assert!(matches!(exchange, Exchange::Done(Ok(()))));
}

#[test]
fn empty_batch_insert_returns_no_ids() {
    let rows: [TestRow; 0] = [];
    let exchange = execute_batch_insert(&connection(), &rows, "runs", json);
    match exchange {
        Exchange::Done(result) => assert_eq!(result.ok(), Some(Vec::new())),
        Exchange::Send(_) => panic!("a request was sent"),
    }
}

#[test]
fn plain_options_insert_and_conflict_columns_upsert() {
    let plain = WriteOptions::new();
    assert!(!plain.is_upsert());

    let upsert = WriteOptions::new()
        .on_conflict(["session_pk", "run_index"])
        .returning("id,run_index");
    assert!(upsert.is_upsert() && upsert.returns_rows());
    assert!(!WriteOptions::default().on_conflict(Vec::<String>::new()).is_upsert());
}

#[test]
fn prefer_tells_what_is_asked() {
    let shown = |options: WriteOptions| options.prefer_header();
    assert_eq!(shown(WriteOptions::new()), "return=minimal");
    assert_eq!(
        shown(WriteOptions::new().on_conflict(["id"])),
        "resolution=merge-duplicates,return=minimal"
    );
    assert_eq!(shown(WriteOptions::new().returning("id")), "return=representation");
    assert_eq!(
        shown(WriteOptions::new().merging().returning_all()),
        "resolution=merge-duplicates,return=representation"
    );
}

#[test]
fn asking_for_rows_changes_nothing_else() {
    let options = WriteOptions::new().on_conflict(["a", "b"]);
    let asking = options.requesting_rows();
    assert!(!options.returns_rows());
    assert!(asking.returns_rows());
    assert_eq!(asking.query().to_query_string(), options.query().to_query_string());
    let again = asking.requesting_rows();
    assert_eq!(again.prefer_header(), asking.prefer_header());
    let named = WriteOptions::new().returning("id").requesting_rows();
    assert_eq!(named.query().to_query_string(), "select=id");
}

#[test]
fn returning_all_forgets_a_projection() {
    let options = WriteOptions::new().returning("id").returning_all();
    assert_eq!(options.query().to_query_string(), "");
    assert!(options.returns_rows());
}

#[test]
fn a_row_type_without_unique_columns_still_upserts() {
    let options = upsert_options::<LogRow>();
    assert!(options.is_upsert());
    assert_eq!(
        options.prefer_header(),
        "resolution=merge-duplicates,return=representation"
    );
    assert_eq!(options.query().to_query_string(), "");
}

#[test]
fn https_is_told_from_plaintext() {
    assert!(connection().is_secure());
    assert!(!SupabaseConnection::new("http://test.supabase.co", "key").is_secure());
    assert!(!SupabaseConnection::new(String::from("https:/"), "key").is_secure());
}

#[test]
fn requests_give_up_after_thirty_seconds() {
    let request = build_select_request(&connection(), "t", &TableQuery::new());
    assert_eq!(request.timeout, Some(30));
    assert_eq!(
        request.timeout,
        Some(ehttp::Request::DEFAULT_TIMEOUT.as_secs())
    );
}

#[test]
fn a_caller_can_adjust_a_built_request() {
    let mut request = build_write_request(
        &connection(),
        std::slice::from_ref(&row()),
        "crash_reports",
        &WriteOptions::new(),
        json,
    )
    .unwrap();
    assert_eq!(request.url, "https://test.supabase.co/rest/v1/crash_reports");
    request.timeout = Some(5);
    assert_eq!(request.timeout, Some(5));
}

#[test]
fn headers_stand_in_order() {
    let request = write_request(&connection(), "runs", &WriteOptions::new(), "[]");
    let expected: Vec<(String, String)> = [
        ("Content-Type", "application/json"),
        ("apikey", "key123"),
        ("Authorization", "Bearer key123"),
        ("Prefer", "return=minimal"),
    ]
    .iter()
    .map(|(name, value)| (name.to_string(), value.to_string()))
    .collect();
    assert_eq!(request.headers.headers, expected);
    assert_eq!(body(&request), "[]");

    let request = build_select_request(&connection(), "t", &TableQuery::new());
    let expected: Vec<(String, String)> = [("apikey", "key123"), ("Authorization", "Bearer key123")]
        .iter()
        .map(|(name, value)| (name.to_string(), value.to_string()))
        .collect();
    assert_eq!(request.headers.headers, expected);
}

#[test]
fn a_body_beyond_ascii_is_sent_as_utf8() {
    let request = write_request(&connection(), "t", &WriteOptions::new(), "[\"é\"]");
    assert_eq!(request.body, vec![91, 34, 0xc3, 0xa9, 34, 93]);
}

#[test]
fn rows_that_do_not_serialize_are_not_sent() {
    let rows = [row()];
    let err = build_write_request(&connection(), &rows, "runs", &WriteOptions::new(), refuse)
        .unwrap_err();
    assert_eq!(err.message, "Serialization failed: no such value");
    assert_eq!(err.status, None);
    assert_eq!(err.body, None);

    let write = execute_write(&connection(), &rows, "runs", &WriteOptions::new(), refuse);
    assert_eq!(failed(write).message, "Serialization failed: no such value");
    let update = execute_update(&connection(), &row(), "runs", 1, "id", refuse);
    assert_eq!(failed(update).message, "Serialization failed: no such value");
}

#[test]
fn a_write_sends_its_rows() {
    let rows = [row(), row()];
    let request = sent(execute_write(
        &connection(),
        &rows,
        "runs",
        &WriteOptions::new(),
        json,
    ));
    assert_eq!(
        body(&request),
        r#"[{"session_pk":7,"run_index":2},{"session_pk":7,"run_index":2}]"#
    );
    assert_eq!(header(&request, "prefer").as_deref(), Some("return=minimal"));
}

#[test]
fn a_returning_write_asks_for_rows() {
    let rows = [row()];
    let exchange: Exchange<Vec<PrimaryKeyResponse>> =
        execute_write_returning(&connection(), &rows, "runs", &WriteOptions::new(), json);
    assert_eq!(
        header(&sent(exchange), "prefer").as_deref(),
        Some("return=representation")
    );

    let none: [TestRow; 0] = [];
    let exchange: Exchange<Vec<PrimaryKeyResponse>> =
        execute_write_returning(&connection(), &none, "runs", &WriteOptions::new(), json);
    assert!(matches!(exchange, Exchange::Done(Ok(rows)) if rows.is_empty()));
}

#[test]
fn a_select_is_always_sent() {
    let query = TableQuery::new().eq("player", 3);
    let exchange: Exchange<Vec<PrimaryKeyResponse>> =
        execute_select(&connection(), "highscores", &query);
    assert_eq!(
        sent(exchange).url,
        "https://test.supabase.co/rest/v1/highscores?player=eq.3"
    );
}

#[test]
fn an_insert_and_an_upsert_send_one_row() {
    let request = sent(execute_insert(&connection(), &row(), "runs", json));
    assert_eq!(request.method, "POST");
    assert_eq!(request.url, "https://test.supabase.co/rest/v1/runs");
    assert_eq!(body(&request), r#"[{"session_pk":7,"run_index":2}]"#);
    assert_eq!(
        header(&request, "prefer").as_deref(),
        Some("return=representation")
    );

    let request = sent(execute_upsert(&connection(), &row(), "runs", json));
    assert_eq!(
        request.url,
        "https://test.supabase.co/rest/v1/runs?on_conflict=session_pk,run_index"
    );
    assert_eq!(body(&request), r#"[{"session_pk":7,"run_index":2}]"#);
    assert_eq!(
        header(&request, "prefer").as_deref(),
        Some("resolution=merge-duplicates,return=representation")
    );
}

#[test]
fn an_update_patches_the_row_with_its_key() {
    let request = sent(execute_update(
        &connection(),
        &row(),
        "runs",
        -12,
        "id",
        |row: &TestRow| serde_json::to_string(row),
    ));
    assert_eq!(request.method, "PATCH");
    assert_eq!(request.url, "https://test.supabase.co/rest/v1/runs?id=eq.-12");
    assert_eq!(body(&request), r#"{"session_pk":7,"run_index":2}"#);
    assert_eq!(header(&request, "prefer").as_deref(), Some("return=minimal"));
    assert_eq!(request.timeout, Some(30));
}

#[test]
fn updates_of_different_rows_go_to_different_urls() {
    let url = |key: i64| update_request(&connection(), "runs", key, "id", "{}").url;
    assert_ne!(url(1), url(11));
    assert_ne!(url(1), url(-1));
    assert_eq!(
        url(i64::MIN),
        "https://test.supabase.co/rest/v1/runs?id=eq.-9223372036854775808"
    );
}

#[test]
fn batches_send_every_row() {
    let rows = [row(), row()];
    let two = r#"[{"session_pk":7,"run_index":2},{"session_pk":7,"run_index":2}]"#;
    let request = sent(execute_batch_insert(&connection(), &rows, "runs", json));
    assert_eq!(body(&request), two);
    assert_eq!(request.url, "https://test.supabase.co/rest/v1/runs");

    let request = sent(execute_batch_upsert(&connection(), &rows, "runs", json));
    assert_eq!(body(&request), two);
    assert_eq!(
        request.url,
        "https://test.supabase.co/rest/v1/runs?on_conflict=session_pk,run_index"
    );
    let none: [TestRow; 0] = [];
    let exchange = execute_batch_upsert(&connection(), &none, "runs", json);
    assert!(matches!(exchange, Exchange::Done(Ok(ids)) if ids.is_empty()));
}

#[test]
fn single_and_many_writes_follow_their_options() {
    let options = WriteOptions::new().returning("id");
    let request = sent(write_one(&connection(), &row(), "t", &options, json));
    assert_eq!(request.url, "https://test.supabase.co/rest/v1/t?select=id");
    let request = sent(write_many(&connection(), &[row()], "t", &options, json));
    assert_eq!(request.url, "https://test.supabase.co/rest/v1/t?select=id");
}

fn sync(config: &SyncConfig, has_key: bool, key: Option<i64>) -> (Request, bool) {
    let (exchange, inserts) = execute_sync(
        &connection(),
        &row(),
        config,
        has_key,
        key,
        json,
        |row: &TestRow| serde_json::to_string(row),
    );
    (sent(exchange), inserts)
}

#[test]
fn the_save_mode_decides_what_a_sync_sends() {
    let (request, inserts) = sync(&SyncConfig::new(SaveMode::Insert), true, Some(4));
    assert!(inserts);
    assert_eq!(request.url, "https://test.supabase.co/rest/v1/runs");
    assert_eq!(request.method, "POST");

    let (request, inserts) = sync(&SyncConfig::new(SaveMode::Upsert), true, Some(4));
    assert!(inserts);
    assert_eq!(
        request.url,
        "https://test.supabase.co/rest/v1/runs?on_conflict=session_pk,run_index"
    );

    let (request, inserts) = sync(&SyncConfig::new(SaveMode::Update), true, Some(4));
    assert!(!inserts);
    assert_eq!(request.method, "PATCH");
    assert_eq!(request.url, "https://test.supabase.co/rest/v1/runs?id=eq.4");

    for (has_key, key) in [(false, Some(4)), (true, None), (false, None)] {
        let (request, inserts) = sync(&SyncConfig::new(SaveMode::Update), has_key, key);
        assert!(inserts);
        assert_eq!(
            request.url,
            "https://test.supabase.co/rest/v1/runs?on_conflict=session_pk,run_index"
        );
    }
}

#[test]
fn a_sync_goes_to_the_overriding_table() {
    let config = SyncConfig::new(SaveMode::Update).with_table("archive");
    let (request, _) = sync(&config, true, Some(4));
    assert_eq!(request.url, "https://test.supabase.co/rest/v1/archive?id=eq.4");
}

#[test]
fn every_request_carries_the_key() {
    let requests = [
        write_request(&connection(), "t", &WriteOptions::new(), "[]"),
        update_request(&connection(), "t", 1, "id", "{}"),
        build_select_request(&connection(), "t", &TableQuery::new()),
    ];
    for request in &requests {
        assert_eq!(header(request, "apikey").as_deref(), Some("key123"));
        assert_eq!(
            header(request, "authorization").as_deref(),
            Some("Bearer key123")
        );
        assert_eq!(request.timeout, Some(30));
    }
    assert_eq!(header(&requests[2], "prefer"), None);
}

#[test]
fn naming_no_columns_turns_an_upsert_into_an_insert() {
    let none: Vec<String> = Vec::new();
    let options = upsert_options::<TestRow>().on_conflict(none);
    assert!(!options.is_upsert());
    assert!(options.returns_rows());
    assert_eq!(options.prefer_header(), "return=representation");
    let options = upsert_options::<LogRow>().on_conflict(["id"]);
    assert!(options.is_upsert());
    assert_eq!(options.query().to_query_string(), "on_conflict=id");
}
