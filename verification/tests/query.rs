use msg_supabase::query::{Order, TableQuery};

#[test]
fn empty_query_renders_nothing() {
    let query = TableQuery::new();
    assert!(query.is_empty());
    assert_eq!(query.to_query_string(), "");
}

#[test]
fn on_conflict_joins_columns() {
    let query = TableQuery::new().on_conflict(["session_pk", "run_index"]);
    assert_eq!(query.to_query_string(), "on_conflict=session_pk,run_index");
}

#[test]
fn on_conflict_precedes_select() {
    let query = TableQuery::new()
        .select("id,run_index")
        .on_conflict(["run_uuid"]);
    assert_eq!(
        query.to_query_string(),
        "on_conflict=run_uuid&select=id,run_index"
    );
}

#[test]
fn filters_use_postgrest_operators() {
    let query = TableQuery::new().filter("kills", "gte.10").eq("won", true);
    assert_eq!(query.to_query_string(), "kills=gte.10&won=eq.true");
}

#[test]
fn order_clauses_are_comma_separated() {
    let query = TableQuery::new()
        .order("kills", Order::Descending)
        .order("player_id", Order::Ascending);
    assert_eq!(query.to_query_string(), "order=kills.desc,player_id.asc");
}

#[test]
fn select_all_with_limit() {
    let query = TableQuery::new().select("*").limit(1000);
    assert_eq!(query.to_query_string(), "select=*&limit=1000");
    assert!(!query.is_empty());
}

#[test]
fn every_part_has_its_place() {
    let query = TableQuery::new()
        .limit(10)
        .order("score", Order::Descending)
        .filter("score", "gt.100")
        .select("id,score");
    assert_eq!(
        query.to_query_string(),
        "select=id,score&score=gt.100&order=score.desc&limit=10"
    );
}

#[test]
fn any_single_part_makes_a_query_non_empty() {
    let queries = vec![
        TableQuery::new().select(""),
        TableQuery::new().on_conflict([""]),
        TableQuery::new().filter("", ""),
        TableQuery::new().order("", Order::Ascending),
        TableQuery::new().limit(0),
    ];
    for query in &queries {
        assert!(!query.is_empty());
        assert!(!query.to_query_string().is_empty());
    }
}

#[test]
fn no_conflict_columns_add_no_parameter() {
    let none: Vec<String> = Vec::new();
    let query = TableQuery::default().on_conflict(none);
    assert!(query.is_empty());
    assert_eq!(query.to_query_string(), "");
}

#[test]
fn a_later_setting_replaces_an_earlier_one() {
    let query = TableQuery::new()
        .select("a")
        .select("b".to_string())
        .on_conflict(["c", "d"])
        .on_conflict(["e"])
        .limit(1)
        .limit(2);
    assert_eq!(query.to_query_string(), "on_conflict=e&select=b&limit=2");
}

#[test]
fn equality_shows_any_value() {
    let query = TableQuery::new()
        .eq("n", -7)
        .eq("name", "troll")
        .eq("owner", String::from("me"));
    assert_eq!(query.to_query_string(), "n=eq.-7&name=eq.troll&owner=eq.me");
}

#[test]
fn limits_are_written_in_decimal() {
    let shown = |rows: usize| TableQuery::new().limit(rows).to_query_string();
    assert_eq!(shown(0), "limit=0");
    assert_eq!(shown(9), "limit=9");
    assert_eq!(shown(10), "limit=10");
    assert_eq!(shown(1234567890), "limit=1234567890");
    assert_eq!(shown(usize::MAX), format!("limit={}", usize::MAX));
}

#[test]
fn directions_have_a_suffix() {
    assert_eq!(Order::Ascending.as_suffix(), "asc");
    assert_eq!(Order::Descending.as_suffix(), "desc");
}

#[test]
fn text_beyond_ascii_is_kept() {
    let query = TableQuery::new().filter("größe", "eq.日本");
    assert_eq!(query.to_query_string(), "größe=eq.日本");
}

#[test]
fn columns_come_as_array_vector_or_slice() {
    let names = ["a", "b"];
    let expected = "on_conflict=a,b";
    let shown = |query: TableQuery| query.to_query_string();
    assert_eq!(shown(TableQuery::new().on_conflict(names)), expected);
    assert_eq!(shown(TableQuery::new().on_conflict(&names[..])), expected);
    assert_eq!(shown(TableQuery::new().on_conflict(vec!["a", "b"])), expected);
    let owned = vec!["a".to_string(), "b".to_string()];
    assert_eq!(shown(TableQuery::new().on_conflict(owned)), expected);
}
