//! Validation of a read request and the planning decisions around it.

use vstd::prelude::*;
use crate::partition::{generate_prefixes, prefixes_spec, Timestamp, MAX_SECS};
use crate::text::{chars_eq, chars_of, lower_of, lowercase, split_tokens, string_of, tokens};

verus! {

#[verifier::external_type_specification]
#[verifier::external_body]
pub struct ExValue(serde_json::Value);

/// Why a read request was refused.
#[derive(Debug)]
pub enum QueryError {
    /// A field of the request is absent or not a string.
    JsonQuery(String),
    /// The query text holds no token.
    Empty,
    /// The query text joins streams.
    Join(String),
    /// The query text names no stream after `from`.
    NoStream(String),
    /// The query text names a second stream after the first.
    MultipleStreams(String),
    /// A time is not an RFC 3339 timestamp.
    BadTimestamp(String),
    /// The start time is later than the end time.
    StartAfterEnd,
}

/// The outcome of scanning the tokens of a query text.
pub enum Scan {
    Empty,
    Join,
    NoStream,
    Multiple,
    Stream(Seq<char>),
}

/// The first index at or after `k` where `w` stands in `t`, or -1.
pub open spec fn first_index(t: Seq<Seq<char>>, w: Seq<char>, k: int) -> int
    decreases t.len() - k,
{
    if k < 0 || k >= t.len() {
        -1
    } else if t[k] == w {
        k
    } else {
        first_index(t, w, k + 1)
    }
}

/// What a query's tokens say: the stream after the first `from`, or the reason
/// there is none.
pub open spec fn scan(t: Seq<Seq<char>>) -> Scan {
    let f = first_index(t, "from"@, 0);
    if t.len() == 0 {
        Scan::Empty
    } else if first_index(t, "join"@, 0) >= 0 {
        Scan::Join
    } else if f < 0 || f + 1 >= t.len() {
        Scan::NoStream
    } else if f + 2 < t.len() && t[f + 2] == "and"@ {
        Scan::Multiple
    } else {
        Scan::Stream(t[f + 1])
    }
}

/// Whether `r` is what scanning `query` gives.
pub open spec fn scan_result(query: Seq<char>, r: Result<String, QueryError>) -> bool {
    match scan(tokens(query)) {
        Scan::Empty => r matches Err(QueryError::Empty),
        Scan::Join => r matches Err(QueryError::Join(q)) && q@ == query,
        Scan::NoStream => r matches Err(QueryError::NoStream(q)) && q@ == query,
        Scan::Multiple => r matches Err(QueryError::MultipleStreams(q)) && q@ == query,
        Scan::Stream(s) => r matches Ok(name) && name@ == s,
    }
}

/// A word that stands at `j` is found by a search from `k` at `j` or before.
pub proof fn lemma_found(t: Seq<Seq<char>>, w: Seq<char>, k: int, j: int)
    requires
        0 <= k <= j < t.len(),
        t[j] == w,
    ensures
        k <= first_index(t, w, k) <= j,
        t[first_index(t, w, k)] == w,
        forall|m: int| k <= m < first_index(t, w, k) ==> t[m] != w,
    decreases j - k,
{
    if t[k] != w {
        lemma_found(t, w, k + 1, j);
    }
}

/// A query text with a `join` token is refused as a join, whatever its other tokens.
pub proof fn lemma_join_refused(query: Seq<char>, i: int)
    requires
        0 <= i < tokens(query).len(),
        tokens(query)[i] == "join"@,
    ensures
        scan(tokens(query)) == Scan::Join,
{
    lemma_found(tokens(query), "join"@, 0, i);
}

/// A query text without `join` whose first `from` is followed by a stream and
/// then `and` is refused as naming several streams.
pub proof fn lemma_and_refused(query: Seq<char>, f: int)
    requires
        forall|j: int| 0 <= j < tokens(query).len() ==> tokens(query)[j] != "join"@,
        0 <= f,
        f + 2 < tokens(query).len(),
        tokens(query)[f] == "from"@,
        forall|j: int| 0 <= j < f ==> tokens(query)[j] != "from"@,
        tokens(query)[f + 2] == "and"@,
    ensures
        scan(tokens(query)) == Scan::Multiple,
{
    let t = tokens(query);
    lemma_found(t, "from"@, 0, f);
    if first_index(t, "join"@, 0) >= 0 {
        lemma_index_found(t, "join"@, 0);
    }
}

/// A search that finds something finds `w` in range.
proof fn lemma_index_found(t: Seq<Seq<char>>, w: Seq<char>, k: int)
    requires
        first_index(t, w, k) >= 0,
    ensures
        k <= first_index(t, w, k) < t.len(),
        t[first_index(t, w, k)] == w,
    decreases t.len() - k,
{
    if k >= 0 && k < t.len() && t[k] != w {
        lemma_index_found(t, w, k + 1);
    }
}

/// What chrono reads from an RFC 3339 text: seconds since the epoch and the
/// sub-second part in nanoseconds, or nothing.
pub uninterp spec fn rfc3339_instant(s: Seq<char>) -> Option<(int, int)>;

/// The instant that `s` denotes, where chrono reads one within this library's range.
pub open spec fn instant_of(s: Seq<char>) -> Option<Timestamp> {
    match rfc3339_instant(s) {
        Some(p) => if -MAX_SECS <= p.0 <= MAX_SECS && 0 <= p.1 <= u32::MAX {
            Some(Timestamp { secs: p.0 as i64, nanos: p.1 as u32 })
        } else {
            None
        },
        None => None,
    }
}

/// Whether `r` is what reading the time `s` gives.
pub open spec fn time_result(s: Seq<char>, r: Result<Timestamp, QueryError>) -> bool {
    match instant_of(s) {
        Some(ts) => r == Ok::<Timestamp, QueryError>(ts),
        None => r matches Err(QueryError::BadTimestamp(t)) && t@ == s,
    }
}

/// Relies on chrono's `DateTime::parse_from_rfc3339`, `timestamp` and
/// `timestamp_subsec_nanos`: the instant an RFC 3339 text denotes.
#[verifier::external_body]
fn parse_instant(s: &str) -> (r: Option<(i64, u32)>)
    ensures
        r is None <==> rfc3339_instant(s@) is None,
        r matches Some(p) ==> rfc3339_instant(s@) == Some((p.0 as int, p.1 as int)),
{
    match chrono::DateTime::parse_from_rfc3339(s) {
        Ok(d) => Some((d.timestamp(), d.timestamp_subsec_nanos())),
        Err(_) => None,
    }
}

/// The text of the field `key` of a JSON value, where it is present and a string.
pub uninterp spec fn json_str_field(v: serde_json::Value, key: Seq<char>) -> Option<Seq<char>>;

/// Relies on serde_json's `Value::get` and `Value::as_str`: the text of a string field.
#[verifier::external_body]
fn get_value(value: &serde_json::Value, key: &str) -> (r: Result<String, QueryError>)
    ensures
        r matches Ok(s) ==> json_str_field(*value, key@) == Some(s@),
        r is Err ==> json_str_field(*value, key@) is None,
        r matches Err(e) ==> (e matches QueryError::JsonQuery(k) && k@ == key@),
{
    match value.get(key).and_then(serde_json::Value::as_str) {
        Some(s) => Ok(s.to_string()),
        None => Err(QueryError::JsonQuery(key.to_string())),
    }
}

/// Whether `s` is not later than `e`.
pub open spec fn not_after(s: Timestamp, e: Timestamp) -> bool {
    s.secs < e.secs || (s.secs == e.secs && s.nanos <= e.nanos)
}

/// Whether `r` is what a request made of these three texts gives: the query text
/// is lowered and scanned for its stream, then the start and the end are read,
/// and the start must not be later than the end.
pub open spec fn fields_result(query: Seq<char>, start: Seq<char>, end: Seq<char>, r: Result<Query, QueryError>) -> bool {
    let q = lower_of(query);
    match scan(tokens(q)) {
        Scan::Stream(name) => match instant_of(start) {
            None => r matches Err(QueryError::BadTimestamp(t)) && t@ == start,
            Some(s) => match instant_of(end) {
                None => r matches Err(QueryError::BadTimestamp(t)) && t@ == end,
                Some(e) => if not_after(s, e) {
                    r matches Ok(x) && x.query@ == q && x.stream_name@ == name && x.start == s && x.end == e
                } else {
                    r matches Err(QueryError::StartAfterEnd)
                },
            },
        },
        _ => match r {
            Err(e) => scan_result(q, Err(e)),
            Ok(_) => false,
        },
    }
}

/// Reads an RFC 3339 time into a timestamp.
pub fn to_timestamp(s: &str) -> (r: Result<Timestamp, QueryError>)
    ensures
        time_result(s@, r),
        r matches Ok(ts) ==> ts.wf(),
{
    match parse_instant(s) {
        Some((secs, nanos)) => {
            if -MAX_SECS <= secs && secs <= MAX_SECS {
                Ok(Timestamp { secs, nanos })
            } else {
                Err(QueryError::BadTimestamp(s.to_owned()))
            }
        },
        None => Err(QueryError::BadTimestamp(s.to_owned())),
    }
}

fn index_of(t: &Vec<Vec<char>>, w: &Vec<char>) -> (r: Option<usize>)
    ensures
        r matches Some(i) ==> i < t@.len() && first_index(t@.map_values(|v: Vec<char>| v@), w@, 0) == i,
        r is None ==> first_index(t@.map_values(|v: Vec<char>| v@), w@, 0) == -1,
{
    let ghost tv = t@.map_values(|v: Vec<char>| v@);
    let mut i: usize = 0;
    while i < t.len()
        invariant
            i <= t@.len(),
            tv == t@.map_values(|v: Vec<char>| v@),
            first_index(tv, w@, 0) == first_index(tv, w@, i as int),
        decreases t@.len() - i,
    {
        if chars_eq(&t[i], w) {
            return Some(i);
        }
        i = i + 1;
    }
    None
}

/// Finds the stream that a lower-case query text reads: the token after the
/// first `from`, where the text holds no `join` and no `and` after the stream.
pub fn stream_of(query: &str) -> (r: Result<String, QueryError>)
    ensures
        scan_result(query@, r),
{
    let cs = chars_of(query);
    let toks = split_tokens(&cs);
    let ghost tv = toks@.map_values(|v: Vec<char>| v@);
    if toks.len() == 0 {
        return Err(QueryError::Empty);
    }
    if index_of(&toks, &chars_of("join")).is_some() {
        return Err(QueryError::Join(query.to_owned()));
    }
    match index_of(&toks, &chars_of("from")) {
        None => Err(QueryError::NoStream(query.to_owned())),
        Some(f) => {
            if f + 1 >= toks.len() {
                Err(QueryError::NoStream(query.to_owned()))
            } else if f + 2 < toks.len() && chars_eq(&toks[f + 2], &chars_of("and")) {
                assert(tv[f + 2] == toks@[f + 2]@);
                Err(QueryError::MultipleStreams(query.to_owned()))
            } else {
                assert(tv[f + 1] == toks@[f + 1]@);
                assert(f + 2 < toks.len() ==> tv[f + 2] == toks@[f + 2]@);
                Ok(string_of(&toks[f + 1]))
            }
        },
    }
}

/// One validated read request on a single stream.
pub struct Query {
    pub query: String,
    pub stream_name: String,
    pub start: Timestamp,
    pub end: Timestamp,
}

impl Query {
    pub open spec fn wf(&self) -> bool {
        self.start.wf() && self.end.wf()
    }

    /// Builds a request from its query text and its two RFC 3339 times. The text
    /// is lowered; then the stream is found, then the start and the end are read,
    /// and the start must not be later than the end.
    pub fn from_fields(query: &str, start_time: &str, end_time: &str) -> (r: Result<Query, QueryError>)
        ensures
            fields_result(query@, start_time@, end_time@, r),
            r matches Ok(q) ==> q.wf(),
    {
        let query = lowercase(query);
        let stream_name = match stream_of(query.as_str()) {
            Ok(s) => s,
            Err(e) => return Err(e),
        };
        let start = match to_timestamp(start_time) {
            Ok(t) => t,
            Err(e) => return Err(e),
        };
        let end = match to_timestamp(end_time) {
            Ok(t) => t,
            Err(e) => return Err(e),
        };
        if end.secs < start.secs || (end.secs == start.secs && end.nanos < start.nanos) {
            return Err(QueryError::StartAfterEnd);
        }
        Ok(Query { query, stream_name, start, end })
    }

    /// Reads a request from a JSON object with string fields `query`,
    /// `startTime` and `endTime`; the first of them that is absent or not a
    /// string is reported.
    pub fn parse(json: serde_json::Value) -> (r: Result<Query, QueryError>)
        ensures
            match json_str_field(json, "query"@) {
                None => r matches Err(QueryError::JsonQuery(k)) && k@ == "query"@,
                Some(q) => match json_str_field(json, "startTime"@) {
                    None => r matches Err(QueryError::JsonQuery(k)) && k@ == "startTime"@,
                    Some(s) => match json_str_field(json, "endTime"@) {
                        None => r matches Err(QueryError::JsonQuery(k)) && k@ == "endTime"@,
                        Some(e) => fields_result(q, s, e, r),
                    },
                },
            },
            r matches Ok(q) ==> q.wf(),
    {
        let query = get_value(&json, "query")?;
        let start_time = get_value(&json, "startTime")?;
        let end_time = get_value(&json, "endTime")?;
        Query::from_fields(query.as_str(), start_time.as_str(), end_time.as_str())
    }

    /// The storage prefixes that cover this request's time range.
    pub fn get_prefixes(&self) -> (r: Vec<String>)
        requires
            self.wf(),
        ensures
            r@.map_values(|p: String| p@) == prefixes_spec(self.stream_name@, self.start, self.end),
    {
        generate_prefixes(self.stream_name.as_str(), self.start, self.end)
    }

    /// Whether the local cache must be read too: the range ends less than a sync
    /// interval before `now`, so its latest rows may not be in durable storage yet.
    pub fn needs_cache(&self, now: Timestamp, sync_secs: u64) -> (r: bool)
        ensures
            r == ((now.secs - self.end.secs) * 1_000_000_000 + now.nanos - self.end.nanos
                < sync_secs * 1_000_000_000),
    {
        let secs: i128 = (now.secs as i128) - (self.end.secs as i128);
        secs * 1_000_000_000 + (now.nanos as i128) - (self.end.nanos as i128)
            < (sync_secs as i128) * 1_000_000_000
    }
}

} // verus!
