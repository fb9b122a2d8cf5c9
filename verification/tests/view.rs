use msg_supabase::http::Response;
use msg_supabase::prelude::{Order, RequestError, SupabaseConnection, SupabaseView};
use msg_supabase::prelude::{SupabaseViewConfig, SupabaseViewPlugin, TableQuery, ViewOutcome};
use msg_supabase::view::{finish_fetch, view_notice, view_notices, ViewNotice};

#[derive(Debug, PartialEq)]
struct TestScore {
    kills: i64,
}

impl SupabaseView for TestScore {
    fn view_name() -> &'static str {
        "highscores"
    }
}

#[derive(Debug)]
struct RunHighscore {}

impl SupabaseView for RunHighscore {
    fn view_name() -> &'static str {
        "highscores_runs"
    }
    fn query() -> TableQuery {
        TableQuery::new()
            .select("*")
            .order("kills", Order::Descending)
            .limit(10)
    }
}

/// What the announcements told.
#[derive(Default)]
struct Seen {
    rows: Vec<i64>,
    failure: Option<String>,
}

fn announce(outcomes: Vec<ViewOutcome<TestScore>>) -> Seen {
    let mut seen = Seen::default();
    for notice in view_notices(outcomes) {
        match notice {
            ViewNotice::Fetched(event) => {
                seen.rows = event.rows.iter().map(|row| row.kills).collect();
            }
            ViewNotice::Failed(event) => {
                seen.failure = Some(event.message.clone());
            }
        }
    }
    seen
}

fn parse(body: &str) -> Result<Vec<TestScore>, serde_json::Error> {
    let kills: Vec<i64> = serde_json::from_str(body)?;
    Ok(kills.into_iter().map(|kills| TestScore { kills }).collect())
}

#[test]
fn fetched_rows_reach_the_observer() {
    let seen = announce(vec![ViewOutcome::Rows(vec![
        TestScore { kills: 3 },
        TestScore { kills: 5 },
    ])]);

    assert_eq!(seen.rows, vec![3, 5]);
    assert!(seen.failure.is_none());
}

#[test]
fn a_failed_read_reaches_the_observer() {
    let seen = announce(vec![ViewOutcome::Failure(RequestError::network("offline"))]);

    assert_eq!(seen.failure.as_deref(), Some("offline"));
    assert!(seen.rows.is_empty());
}

#[test]
fn a_fetch_reads_the_view_with_its_query() {
    let plugin = SupabaseViewPlugin::<RunHighscore>::new("https://test.supabase.co", "key");
    let config = SupabaseViewConfig::<RunHighscore>::new(plugin.connection);
    let request = config.start_fetch();
    assert_eq!(request.method, "GET");
    assert_eq!(
        request.url,
        "https://test.supabase.co/rest/v1/highscores_runs?select=*&order=kills.desc&limit=10"
    );

    let connection = SupabaseConnection::new("https://test.supabase.co", "key");
    let request = SupabaseViewConfig::<TestScore>::new(connection).start_fetch();
    assert_eq!(request.url, "https://test.supabase.co/rest/v1/highscores");
}

#[test]
fn a_reply_becomes_rows_or_a_failure() {
    let reply = |status: u16, body: &str| {
        Ok(Response {
            ok: status < 400,
            status,
            bytes: body.as_bytes().to_vec(),
        })
    };
    match finish_fetch(reply(200, "[3,5]"), parse) {
        ViewOutcome::Rows(rows) => {
            assert_eq!(rows, vec![TestScore { kills: 3 }, TestScore { kills: 5 }]);
        }
        ViewOutcome::Failure(_) => panic!("the read failed"),
    }
    match finish_fetch(reply(401, "[3,5]"), parse) {
        ViewOutcome::Failure(err) => assert_eq!(err.status, Some(401)),
        ViewOutcome::Rows(_) => panic!("the read succeeded"),
    }
    match finish_fetch(Err("offline".to_string()), parse) {
        ViewOutcome::Failure(err) => assert_eq!(err.message, "offline"),
        ViewOutcome::Rows(_) => panic!("the read succeeded"),
    }
}

#[test]
fn a_failure_is_announced_with_its_status() {
    let err = RequestError::http("Request failed with status 401", 401, None);
    match view_notice(ViewOutcome::<TestScore>::Failure(err)) {
        ViewNotice::Failed(event) => {
            assert_eq!(event.message, "Request failed with status 401");
            assert_eq!(event.status, Some(401));
        }
        ViewNotice::Fetched(_) => panic!("rows were announced"),
    }
}
