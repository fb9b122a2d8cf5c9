use msg_supabase::http::Response;
use msg_supabase::reply::{check_response, complete_many, complete_one, complete_rows};
use msg_supabase::reply::{complete_sync, complete_update, complete_write};
use msg_supabase::reply::{complete_write_response, decode_rows, first_primary_key, primary_keys};
use msg_supabase::request::PrimaryKeyResponse;
use std::collections::HashMap;

fn parse_numbers(body: &str) -> Result<Vec<i64>, serde_json::Error> {
    serde_json::from_str(body)
}

fn parse_keys(body: &str) -> Result<Vec<PrimaryKeyResponse>, serde_json::Error> {
    let rows: Vec<HashMap<String, i64>> = serde_json::from_str(body)?;
    rows.into_iter()
        .map(|row| match row.get("id") {
            Some(id) => Ok(PrimaryKeyResponse { id: *id }),
            None => Err(serde::de::Error::missing_field("id")),
        })
        .collect()
}

fn response(status: u16, body: &[u8]) -> Response {
    Response {
        ok: (200..300).contains(&status),
        status,
        bytes: body.to_vec(),
    }
}

#[test]
fn a_good_status_passes_the_response_on() {
    let checked = check_response(Ok(response(201, b"[1]"))).unwrap();
    assert_eq!(checked.status, 201);
    assert_eq!(checked.bytes, b"[1]");
}

#[test]
fn a_bad_status_is_reported_with_its_body() {
    let err = check_response(Ok(response(409, b"duplicate"))).unwrap_err();
    assert_eq!(err.message, "Request failed with status 409");
    assert_eq!(err.status, Some(409));
    assert_eq!(err.body, Some("duplicate".to_string()));

    let err = check_response(Ok(response(500, &[0xff, 0xfe]))).unwrap_err();
    assert_eq!(err.message, "Request failed with status 500");
    assert_eq!(err.body, None);
}

#[test]
fn no_reply_is_a_network_failure() {
    let err = check_response(Err("offline".to_string())).unwrap_err();
    assert_eq!(err.message, "offline");
    assert_eq!(err.status, None);
    assert_eq!(err.body, None);
}

#[test]
fn the_text_of_a_body_is_its_utf8() {
    assert_eq!(response(200, "größe".as_bytes()).text(), Some("größe"));
    assert_eq!(response(200, b"").text(), Some(""));
    assert_eq!(response(200, &[0xc3]).text(), None);
}

#[test]
fn rows_are_read_or_the_failure_is_told() {
    assert_eq!(decode_rows(&response(200, b"[1,2]"), parse_numbers).unwrap(), vec![1, 2]);

    let err = decode_rows(&response(200, b"[1,"), parse_numbers).unwrap_err();
    let expected = parse_numbers("[1,").unwrap_err();
    assert_eq!(err.message, format!("Failed to parse response: {expected}"));
    assert_eq!(err.status, Some(200));
    assert_eq!(err.body, Some("[1,".to_string()));

    let err = decode_rows(&response(206, &[0xff]), parse_numbers).unwrap_err();
    assert_eq!(err.message, "Response body was not valid UTF-8");
    assert_eq!(err.status, Some(206));
    assert_eq!(err.body, None);
}

#[test]
fn keys_are_read_where_there_are_any() {
    let body = br#"[{"id":4},{"id":-9}]"#;
    assert_eq!(primary_keys(&response(201, body), parse_keys), vec![4, -9]);
    assert_eq!(first_primary_key(&response(201, body), parse_keys), Some(4));
    for nothing in [&b"[]"[..], b"", b"nonsense", &[0xff]] {
        assert!(primary_keys(&response(201, nothing), parse_keys).is_empty());
        assert_eq!(first_primary_key(&response(201, nothing), parse_keys), None);
    }
}

#[test]
fn a_write_reports_success_or_failure() {
    assert!(complete_write(Ok(response(204, b"ignored"))).is_ok());
    assert_eq!(complete_write(Ok(response(400, b""))).unwrap_err().status, Some(400));
    assert_eq!(complete_write(Err("x".to_string())).unwrap_err().message, "x");
}

#[test]
fn returned_rows_come_through() {
    assert_eq!(complete_rows(Ok(response(200, b"[3]")), parse_numbers).unwrap(), vec![3]);
    let err = complete_rows(Ok(response(404, b"[3]")), parse_numbers).unwrap_err();
    assert_eq!(err.status, Some(404));
}

#[test]
fn written_keys_come_through() {
    let body = br#"[{"id":4},{"id":5}]"#;
    assert_eq!(complete_one(Ok(response(201, body)), parse_keys).unwrap(), Some(4));
    assert_eq!(complete_one(Ok(response(201, b"")), parse_keys).unwrap(), None);
    assert_eq!(complete_many(Ok(response(201, body)), parse_keys).unwrap(), vec![4, 5]);
    assert!(complete_one(Err("x".to_string()), parse_keys).is_err());
    assert!(complete_many(Ok(response(500, body)), parse_keys).is_err());
}

#[test]
fn an_update_brings_no_key() {
    let body = br#"[{"id":4}]"#;
    assert_eq!(complete_update(Ok(response(204, body))).unwrap(), None);
    assert!(complete_update(Ok(response(404, body))).is_err());
    assert_eq!(complete_sync(Ok(response(204, body)), false, parse_keys).unwrap(), None);
    assert_eq!(complete_sync(Ok(response(201, body)), true, parse_keys).unwrap(), Some(4));
    assert!(complete_sync(Err("x".to_string()), true, parse_keys).is_err());
}

#[test]
fn a_write_response_holds_rows_keys_and_status() {
    let body = br#"[{"id":4},{"id":5}]"#;
    let written =
        complete_write_response(Ok(response(201, body)), true, parse_keys, parse_keys).unwrap();
    assert_eq!(written.rows.len(), 2);
    assert_eq!(written.primary_keys, vec![4, 5]);
    assert_eq!(written.status, 201);

    let written =
        complete_write_response(Ok(response(201, body)), false, parse_keys, parse_keys).unwrap();
    assert!(written.rows.is_empty());
    assert!(written.primary_keys.is_empty());
    assert_eq!(written.status, 201);

    let written =
        complete_write_response(Ok(response(200, b"[1,2]")), true, parse_numbers, parse_keys)
            .unwrap();
    assert_eq!(written.rows, vec![1, 2]);
    assert!(written.primary_keys.is_empty());

    let err = complete_write_response(Ok(response(201, b"")), true, parse_keys, parse_keys)
        .unwrap_err();
    assert_eq!(err.status, Some(201));
}
