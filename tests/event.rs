use parseable::event::{next_entry, Event, EventError, Ingested, LogStream};

fn event(body: &str, schema: &[u8]) -> Event {
    Event {
        body: body.to_string(),
        stream_name: "app".to_string(),
        path: "/tmp/cache".to_string(),
        schema: schema.to_vec(),
    }
}

#[test]
fn first_event_starts_the_stream() {
    let mut entry: Option<LogStream> = None;
    let e = event(r#"{"level": "info", "code": 7}"#, b"");
    let r = e.process(&mut entry).unwrap();
    let ls = entry.unwrap();
    match r {
        Ingested::Initial { schema } => assert_eq!(schema, ls.schema),
        Ingested::Next => panic!("expected the first event"),
    }
    assert!(ls.schema.contains("level"));
    assert_eq!(ls.rb.num_rows(), 1);
}

#[test]
fn later_events_prepend_their_rows() {
    let mut entry: Option<LogStream> = None;
    event(r#"{"level": "info", "code": 7}"#, b"").process(&mut entry).unwrap();
    let schema = entry.as_ref().unwrap().schema.clone();
    for n in 2..5 {
        let body = format!(r#"{{"level": "warn", "code": {}}}"#, n);
        let r = event(&body, schema.as_bytes()).process(&mut entry).unwrap();
        assert!(matches!(r, Ingested::Next));
        let ls = entry.as_ref().unwrap();
        assert_eq!(ls.rb.num_rows(), n);
        assert_eq!(ls.schema, schema);
    }
    let rb = entry.unwrap().rb;
    let codes = rb.column(rb.schema().index_of("code").unwrap()).clone();
    let codes = codes.as_any().downcast_ref::<arrow::array::Int64Array>().unwrap();
    assert_eq!(codes.values().to_vec(), vec![4, 3, 2, 7]);
}

#[test]
fn later_event_needs_an_entry() {
    let mut entry: Option<LogStream> = None;
    let r = event(r#"{"a": 1}"#, b"{}").process(&mut entry);
    assert!(matches!(r, Err(EventError::MissingStream(s)) if s == "app"));
    assert!(entry.is_none());
}

#[test]
fn later_event_is_read_under_the_stored_schema() {
    let mut entry: Option<LogStream> = None;
    event(r#"{"a": 1}"#, b"").process(&mut entry).unwrap();
    let schema = entry.as_ref().unwrap().schema.clone();
    event(r#"{"b": "x"}"#, schema.as_bytes()).process(&mut entry).unwrap();
    let rb = entry.unwrap().rb;
    assert_eq!(rb.num_rows(), 2);
    assert_eq!(rb.num_columns(), 1);
    assert_eq!(rb.schema().field(0).name(), "a");
}

#[test]
fn unreadable_stored_schema_is_refused() {
    let mut entry: Option<LogStream> = None;
    event(r#"{"a": 1}"#, b"").process(&mut entry).unwrap();
    let rb = entry.as_ref().unwrap().rb.clone();
    entry = Some(LogStream { schema: "not a schema".to_string(), rb });
    let r = event(r#"{"a": 2}"#, b"x").process(&mut entry);
    assert!(matches!(r, Err(EventError::Arrow(_))));
    assert_eq!(entry.unwrap().rb.num_rows(), 1);
}

#[test]
fn batches_of_other_schemas_do_not_concatenate() {
    let prev = LogStream { schema: "s".to_string(), rb: event(r#"{"a": 1}"#, b"").read_rows().unwrap() };
    let r = next_entry(&prev, event(r#"{"b": "x"}"#, b"").read_rows().unwrap(), "app");
    assert!(matches!(r, Err(EventError::Concat(s, _)) if s == "app"));
}

#[test]
fn invalid_json_is_refused() {
    let mut entry: Option<LogStream> = None;
    let r = event("{not json", b"").process(&mut entry);
    assert!(matches!(r, Err(EventError::Arrow(_))));
    assert!(entry.is_none());
}

#[test]
fn schema_text_round_trips() {
    let s = event(r#"{"level": "info", "code": 7, "ok": true}"#, b"").infer_schema().unwrap();
    let back: arrow::datatypes::Schema = serde_json::from_str(&s.string_schema).unwrap();
    assert_eq!(back, s.arrow_schema);
    let names: Vec<String> = back.fields().iter().map(|f| f.name().clone()).collect();
    assert_eq!(names, vec!["code", "level", "ok"]);
}

#[test]
fn next_entry_counts_both_batches() {
    let e = event(r#"{"a": 1}"#, b"");
    let prev = LogStream { schema: "s".to_string(), rb: e.read_rows().unwrap() };
    let ls = next_entry(&prev, event(r#"{"a": 2}"#, b"").read_rows().unwrap(), "app").unwrap();
    assert_eq!(ls.rb.num_rows(), 2);
    assert_eq!(ls.schema, "s");
}

#[test]
fn payload_without_rows_is_missing_record() {
    let mut entry: Option<LogStream> = None;
    let r = event("", b"").process(&mut entry);
    assert!(matches!(r, Err(EventError::MissingRecord)));
    assert!(entry.is_none());
    event(r#"{"a": 1}"#, b"").process(&mut entry).unwrap();
    let schema = entry.as_ref().unwrap().schema.clone();
    let r = event("  ", schema.as_bytes()).process(&mut entry);
    assert!(matches!(r, Err(EventError::MissingRecord)));
    assert_eq!(entry.unwrap().rb.num_rows(), 1);
}

#[test]
fn first_event_stores_the_inferred_schema() {
    let e = event(r#"{"level": "info"}"#, b"");
    let inferred = e.infer_schema().unwrap();
    let mut entry: Option<LogStream> = None;
    e.process(&mut entry).unwrap();
    assert_eq!(entry.unwrap().schema, inferred.string_schema);
}

#[test]
fn schema_text_reads_back() {
    let s = event(r#"{"a": [1, 2], "b": {"c": "x"}}"#, b"").infer_schema().unwrap();
    let again: arrow::datatypes::Schema = serde_json::from_str(&s.string_schema).unwrap();
    assert_eq!(serde_json::to_string(&again).unwrap(), s.string_schema);
}
