use std::str::FromStr;

use parseable::partition::{generate_prefixes, Timestamp};
use parseable::query::{stream_of, to_timestamp, Query, QueryError};
use serde_json::Value;

fn at(s: &str) -> Timestamp {
    to_timestamp(s).unwrap()
}

fn query_over(start: &str, end: &str) -> Query {
    Query::from_fields("SELECT * FROM s", start, end).unwrap()
}

#[test]
fn query_parse_prefix() {
    let query = Value::from_str(
        r#"{
    "query": "SELECT * FROM stream_name",
    "startTime": "2022-10-15T10:00:00+00:00",
    "endTime": "2022-10-15T10:01:00+00:00"
}"#,
    )
    .unwrap();

    let query = Query::parse(query).unwrap();

    assert_eq!(&query.stream_name, "stream_name");
    assert_eq!(
        query.get_prefixes(),
        vec!["stream_name/date=2022-10-15/hour=10/minute=00/".to_string()]
    );
}

#[test]
fn parse_lowers_query_text() {
    let q = Query::from_fields(
        "SELECT A FROM Logs WHERE x = 1",
        "2022-10-15T10:00:00+00:00",
        "2022-10-15T10:01:00+00:00",
    )
    .unwrap();
    assert_eq!(q.query, "select a from logs where x = 1");
    assert_eq!(q.stream_name, "logs");
}

#[test]
fn join_is_refused() {
    let r = stream_of("select * from a join b on a.x = b.x");
    assert!(matches!(r, Err(QueryError::Join(q)) if q == "select * from a join b on a.x = b.x"));
    let r = stream_of("join");
    assert!(matches!(r, Err(QueryError::Join(_))));
}

#[test]
fn and_after_stream_is_refused() {
    let r = stream_of("select name from stream1 and stream2");
    assert!(matches!(r, Err(QueryError::MultipleStreams(q)) if q == "select name from stream1 and stream2"));
}

#[test]
fn and_elsewhere_is_accepted() {
    let r = stream_of("select * from s where a = 1 and b = 2");
    assert_eq!(r.unwrap(), "s");
}

#[test]
fn empty_query_is_refused() {
    assert!(matches!(stream_of(""), Err(QueryError::Empty)));
    assert!(matches!(stream_of("  \t "), Err(QueryError::Empty)));
}

#[test]
fn missing_stream_is_refused() {
    assert!(matches!(stream_of("select 1"), Err(QueryError::NoStream(_))));
    assert!(matches!(stream_of("select * from"), Err(QueryError::NoStream(_))));
}

#[test]
fn tokens_split_on_any_whitespace() {
    assert_eq!(stream_of("select *\n from\t  logs ").unwrap(), "logs");
}

#[test]
fn missing_field_is_refused() {
    let v = Value::from_str(r#"{"query": "select * from s", "startTime": "2022-10-15T10:00:00+00:00"}"#).unwrap();
    assert!(matches!(Query::parse(v), Err(QueryError::JsonQuery(k)) if k == "endTime"));
    let v = Value::from_str(r#"{"query": 3, "startTime": "a", "endTime": "b"}"#).unwrap();
    assert!(matches!(Query::parse(v), Err(QueryError::JsonQuery(k)) if k == "query"));
}

#[test]
fn malformed_time_is_refused() {
    let r = Query::from_fields("select * from s", "yesterday", "2022-10-15T10:01:00+00:00");
    assert!(matches!(r, Err(QueryError::BadTimestamp(t)) if t == "yesterday"));
    let r = Query::from_fields("select * from s", "2022-10-15T10:01:00+00:00", "2022-13-15T10:01:00+00:00");
    assert!(matches!(r, Err(QueryError::BadTimestamp(_))));
}

#[test]
fn times_are_read_in_utc() {
    let t = at("2022-10-15T12:30:00+02:00");
    assert_eq!(t.secs, 1665829800);
    assert_eq!(t.nanos, 0);
    assert_eq!(at("2022-10-15T10:30:00.5Z").nanos, 500_000_000);
}

#[test]
fn whole_day_gives_one_day_prefix() {
    let q = query_over("2022-10-15T00:00:00Z", "2022-10-16T00:00:00Z");
    assert_eq!(q.get_prefixes(), vec!["s/date=2022-10-15/".to_string()]);
}

#[test]
fn two_hours_give_two_hour_prefixes() {
    let q = query_over("2022-10-15T10:00:00Z", "2022-10-15T12:00:00Z");
    assert_eq!(
        q.get_prefixes(),
        vec!["s/date=2022-10-15/hour=10/".to_string(), "s/date=2022-10-15/hour=11/".to_string()]
    );
}

#[test]
fn partial_hours_fall_back_to_minutes() {
    let q = query_over("2022-10-15T09:58:30Z", "2022-10-15T11:01:10Z");
    assert_eq!(
        q.get_prefixes(),
        vec![
            "s/date=2022-10-15/hour=09/minute=58/".to_string(),
            "s/date=2022-10-15/hour=09/minute=59/".to_string(),
            "s/date=2022-10-15/hour=10/".to_string(),
            "s/date=2022-10-15/hour=11/minute=00/".to_string(),
            "s/date=2022-10-15/hour=11/minute=01/".to_string(),
        ]
    );
}

#[test]
fn range_across_midnight() {
    let p = generate_prefixes("s", at("2022-10-14T23:00:00Z"), at("2022-10-16T01:00:00Z"));
    assert_eq!(
        p,
        vec![
            "s/date=2022-10-14/hour=23/".to_string(),
            "s/date=2022-10-15/".to_string(),
            "s/date=2022-10-16/hour=00/".to_string(),
        ]
    );
}

#[test]
fn times_before_the_epoch() {
    let p = generate_prefixes("s", at("1969-12-31T23:59:00Z"), at("1970-01-01T00:01:00Z"));
    assert_eq!(
        p,
        vec![
            "s/date=1969-12-31/hour=23/minute=59/".to_string(),
            "s/date=1970-01-01/hour=00/minute=00/".to_string(),
        ]
    );
}

#[test]
fn empty_range_gives_no_prefix() {
    let t = at("2022-10-15T10:00:00Z");
    assert!(generate_prefixes("s", t, t).is_empty());
    assert!(generate_prefixes("s", at("2022-10-15T11:00:00Z"), t).is_empty());
}

#[test]
fn cache_is_read_only_near_now() {
    let q = query_over("2022-10-15T10:00:00Z", "2022-10-15T10:01:00Z");
    let sync = 60;
    assert!(q.needs_cache(at("2022-10-15T10:01:30Z"), sync));
    assert!(!q.needs_cache(at("2022-10-15T10:02:00Z"), sync));
    assert!(!q.needs_cache(at("2022-10-15T11:00:00Z"), sync));
}

#[test]
fn start_after_end_is_refused() {
    let r = Query::from_fields("select * from s", "2022-10-15T10:01:00Z", "2022-10-15T10:00:00Z");
    assert!(matches!(r, Err(QueryError::StartAfterEnd)));
    let r = Query::from_fields("select * from s", "2022-10-15T10:00:00.5Z", "2022-10-15T10:00:00.4Z");
    assert!(matches!(r, Err(QueryError::StartAfterEnd)));
}

#[test]
fn parse_converts_times_to_utc() {
    let v = Value::from_str(
        r#"{"query": "SELECT * FROM MyStream", "startTime": "2022-10-15T12:00:00+02:00", "endTime": "2022-10-15T10:30:00Z"}"#,
    )
    .unwrap();
    let q = Query::parse(v).unwrap();
    assert_eq!(q.query, "select * from mystream");
    assert_eq!(q.stream_name, "mystream");
    assert_eq!(q.start, at("2022-10-15T10:00:00Z"));
    assert_eq!(q.end, at("2022-10-15T10:30:00Z"));
}

#[test]
fn cache_decision_counts_sub_seconds() {
    let q = query_over("2022-10-15T10:00:00Z", "2022-10-15T10:00:10.9Z");
    assert!(q.needs_cache(at("2022-10-15T10:00:11.1Z"), 1));
    assert!(!q.needs_cache(at("2022-10-15T10:00:12Z"), 1));
}

#[test]
fn unicode_whitespace_separates_tokens() {
    assert_eq!(stream_of("select *\u{a0}from\u{0b}logs\u{3000}").unwrap(), "logs");
}
