//! Ingestion of one JSON event into the accumulated batch of its stream.

use vstd::prelude::*;
use std::sync::Arc;
use arrow::datatypes::Schema as ArrowSchema;
use arrow::record_batch::RecordBatch;

verus! {

#[verifier::external_type_specification]
#[verifier::external_body]
pub struct ExRecordBatch(RecordBatch);

#[verifier::external_type_specification]
#[verifier::external_body]
pub struct ExArrowSchema(ArrowSchema);

/// How many rows a record batch holds.
pub uninterp spec fn batch_rows(b: RecordBatch) -> nat;

/// The schema arrow infers from a JSON payload, where it infers one.
pub uninterp spec fn inferred(body: Seq<char>) -> Option<ArrowSchema>;

/// The JSON text serde_json writes for a schema, where it writes one.
pub uninterp spec fn schema_json(s: ArrowSchema) -> Option<Seq<char>>;

/// The schema serde_json reads from a JSON text, where it reads one.
pub uninterp spec fn schema_of_text(t: Seq<char>) -> Option<ArrowSchema>;

/// What arrow's JSON reader yields first for a payload under a schema: nothing
/// where it fails, `Some(None)` where the payload holds no row.
pub uninterp spec fn json_batch(body: Seq<char>, s: ArrowSchema) -> Option<Option<RecordBatch>>;

/// The batch arrow concatenates from two batches, first the rows of `a` and then
/// those of `b`, where their schemas agree.
pub uninterp spec fn concat_of(a: RecordBatch, b: RecordBatch) -> Option<RecordBatch>;

/// Why an event was not ingested.
#[derive(Debug)]
pub enum EventError {
    /// The payload yields no row.
    MissingRecord,
    /// A later event came for a stream that has no accumulated batch.
    MissingStream(String),
    /// arrow or serde_json refused the payload or a schema, with the cause.
    Arrow(String),
    /// The event's rows did not concatenate with those of the stream, with the
    /// stream's name and the cause.
    Concat(String, String),
}

/// One event for one stream: the JSON payload, the stream, the local cache root,
/// and the stream's published schema (empty while the stream is new).
pub struct Event {
    pub body: String,
    pub stream_name: String,
    pub path: String,
    pub schema: Vec<u8>,
}

/// A schema in its structured form and its serialized text.
pub struct Schema {
    pub arrow_schema: ArrowSchema,
    pub string_schema: String,
}

/// What the registry holds for a stream: its published schema text and every
/// row accumulated since the last sync.
pub struct LogStream {
    pub schema: String,
    pub rb: RecordBatch,
}

/// What the caller still has to do after an event was taken in: publish the
/// schema of a new stream, or nothing more than mirroring the batch to the cache.
pub enum Ingested {
    Initial { schema: String },
    Next,
}

/// The rows that a payload yields under a schema, where it yields at least one.
pub open spec fn rows_of(body: Seq<char>, s: ArrowSchema) -> Option<RecordBatch> {
    match json_batch(body, s) {
        Some(Some(b)) => if batch_rows(b) >= 1 { Some(b) } else { None },
        _ => None,
    }
}

/// Whether `r` is what reading a payload under a schema gives.
pub open spec fn rows_result(body: Seq<char>, s: ArrowSchema, r: Result<RecordBatch, EventError>) -> bool {
    match json_batch(body, s) {
        None => r matches Err(EventError::Arrow(_)),
        Some(None) => r matches Err(EventError::MissingRecord),
        Some(Some(b)) => if batch_rows(b) >= 1 {
            r == Ok::<RecordBatch, EventError>(b)
        } else {
            r matches Err(EventError::MissingRecord)
        },
    }
}

/// Relies on arrow's `json::reader::infer_json_schema`: the schema of a JSON payload.
#[verifier::external_body]
fn infer_json(body: &str) -> (r: Result<ArrowSchema, EventError>)
    ensures
        r matches Ok(s) ==> inferred(body@) == Some(s),
        r matches Err(e) ==> inferred(body@) is None && e is Arrow,
{
    let mut reader = std::io::BufReader::new(body.as_bytes());
    arrow::json::reader::infer_json_schema(&mut reader, None).map_err(|e| EventError::Arrow(e.to_string()))
}

/// Relies on serde_json's `to_string` on arrow's `Schema`: its JSON text. The
/// serde impls of arrow-schema's `Schema`, `Field` and `DataType` are derived, and
/// `to_string` fails only where such an impl fails or a map key is not a string,
/// which none of them has. A schema that arrow infers is built by `Schema::new`
/// with empty metadata and fields without metadata, so no hash map's order shows
/// in the text: it depends on the schema alone, and `from_str` reads it back to
/// the same schema.
#[verifier::external_body]
fn schema_to_string(schema: &ArrowSchema) -> (r: String)
    requires
        exists|b: Seq<char>| inferred(b) == Some(*schema),
    ensures
        schema_json(*schema) == Some(r@),
        schema_of_text(r@) == Some(*schema),
{
    serde_json::to_string(schema).unwrap_or_default()
}

/// Relies on serde_json's `from_str` for arrow's `Schema`: the schema a JSON text describes.
#[verifier::external_body]
fn schema_from_string(text: &str) -> (r: Result<ArrowSchema, EventError>)
    ensures
        r matches Ok(s) ==> schema_of_text(text@) == Some(s),
        r matches Err(e) ==> schema_of_text(text@) is None && e is Arrow,
{
    serde_json::from_str(text).map_err(|e: serde_json::Error| EventError::Arrow(e.to_string()))
}

/// Relies on arrow's `json::Reader::next`: the first batch, of up to 1024 rows,
/// that the payload yields under the schema, if any.
#[verifier::external_body]
fn read_batch(body: &str, schema: ArrowSchema) -> (r: Result<Option<RecordBatch>, EventError>)
    ensures
        r matches Ok(b) ==> json_batch(body@, schema) == Some(b),
        r matches Err(e) ==> json_batch(body@, schema) is None && e is Arrow,
{
    let options = arrow::json::reader::DecoderOptions::new().with_batch_size(1024);
    let mut reader = arrow::json::Reader::new(body.as_bytes(), Arc::new(schema), options);
    reader.next().map_err(|e| EventError::Arrow(e.to_string()))
}

/// Relies on arrow's `RecordBatch::num_rows`.
#[verifier::external_body]
fn num_rows(b: &RecordBatch) -> (r: usize)
    ensures
        r == batch_rows(*b),
{
    b.num_rows()
}

/// Relies on arrow's `compute::concat_batches` under the schema of `first`: the
/// rows of `first` and then those of `second`, refused where the schemas differ;
/// the error is the cause's text.
#[verifier::external_body]
fn concat_pair(first: &RecordBatch, second: &RecordBatch) -> (r: Result<RecordBatch, String>)
    ensures
        r matches Ok(b) ==> concat_of(*first, *second) == Some(b)
            && batch_rows(b) == batch_rows(*first) + batch_rows(*second),
        r is Err ==> concat_of(*first, *second) is None,
{
    let batches = [first.clone(), second.clone()];
    arrow::compute::concat_batches(&first.schema(), &batches).map_err(|e| e.to_string())
}

impl Event {
    /// The schema of this event's payload, in both forms; its text reads back to
    /// the same schema.
    pub fn infer_schema(&self) -> (r: Result<Schema, EventError>)
        ensures
            r matches Ok(sc) ==> schema_of_text(sc.string_schema@) == Some(sc.arrow_schema),
            match inferred(self.body@) {
                None => r matches Err(EventError::Arrow(_)),
                Some(s) => r matches Ok(sc) && sc.arrow_schema == s
                    && schema_json(s) == Some(sc.string_schema@),
            },
    {
        let arrow_schema = infer_json(self.body.as_str())?;
        assert(inferred(self.body@) == Some(arrow_schema));
        let string_schema = schema_to_string(&arrow_schema);
        Ok(Schema { arrow_schema, string_schema })
    }

    /// The rows of this event's payload under its own schema; `MissingRecord`
    /// where it yields none.
    pub fn read_rows(&self) -> (r: Result<RecordBatch, EventError>)
        ensures
            match inferred(self.body@) {
                None => r matches Err(EventError::Arrow(_)),
                Some(s) => rows_result(self.body@, s, r),
            },
    {
        let schema = infer_json(self.body.as_str())?;
        self.rows_under(schema)
    }

    /// The rows of this event's payload under the schema that a stored text
    /// describes; `MissingRecord` where it yields none.
    pub fn read_rows_as(&self, schema_text: &str) -> (r: Result<RecordBatch, EventError>)
        ensures
            match schema_of_text(schema_text@) {
                None => r matches Err(EventError::Arrow(_)),
                Some(s) => rows_result(self.body@, s, r),
            },
    {
        let schema = schema_from_string(schema_text)?;
        self.rows_under(schema)
    }

    fn rows_under(&self, schema: ArrowSchema) -> (r: Result<RecordBatch, EventError>)
        ensures
            rows_result(self.body@, schema, r),
    {
        match read_batch(self.body.as_str(), schema)? {
            Some(b) => {
                if num_rows(&b) == 0 {
                    Err(EventError::MissingRecord)
                } else {
                    Ok(b)
                }
            },
            None => Err(EventError::MissingRecord),
        }
    }

    /// Takes this event into the registry entry of its stream. While the published
    /// schema is empty the event starts the stream: the entry gets the inferred
    /// schema's text and the event's rows. Else the entry must exist and keeps its
    /// schema; the event is read under that schema, and the batch becomes the
    /// event's rows followed by the rows it held. The entry is left as it was on
    /// any error.
    pub fn process(&self, entry: &mut Option<LogStream>) -> (r: Result<Ingested, EventError>)
        ensures
            r is Err ==> *final(entry) == *old(entry),
            self.schema@.len() == 0 ==> match inferred(self.body@) {
                None => r matches Err(EventError::Arrow(_)),
                Some(s) => match rows_of(self.body@, s) {
                    None => r matches Err(e)
                        && (if json_batch(self.body@, s) is None { e is Arrow } else { e is MissingRecord }),
                    Some(b) => (r matches Ok(Ingested::Initial { schema }) && schema_json(s) == Some(schema@))
                        && (*final(entry) matches Some(ls) && schema_json(s) == Some(ls.schema@) && ls.rb == b),
                },
            },
            self.schema@.len() != 0 ==> match *old(entry) {
                None => r matches Err(EventError::MissingStream(n)) && n@ == self.stream_name@,
                Some(prev) => match schema_of_text(prev.schema@) {
                    None => r matches Err(EventError::Arrow(_)),
                    Some(s) => match rows_of(self.body@, s) {
                        None => r matches Err(e)
                            && (if json_batch(self.body@, s) is None { e is Arrow } else { e is MissingRecord }),
                        Some(b) => match concat_of(b, prev.rb) {
                            None => r matches Err(EventError::Concat(n, _)) && n@ == self.stream_name@,
                            Some(c) => (r matches Ok(Ingested::Next))
                                && (*final(entry) matches Some(ls) && ls.schema@ == prev.schema@ && ls.rb == c)
                                && batch_rows(c) == batch_rows(b) + batch_rows(prev.rb),
                        },
                    },
                },
            },
    {
        if self.schema.len() == 0 {
            let schema = self.infer_schema()?;
            let b = self.read_rows()?;
            let text = schema.string_schema.clone();
            *entry = Some(LogStream { schema: schema.string_schema, rb: b });
            Ok(Ingested::Initial { schema: text })
        } else {
            match entry {
                None => Err(EventError::MissingStream(self.stream_name.clone())),
                Some(prev) => {
                    let rows = self.read_rows_as(prev.schema.as_str())?;
                    let next = next_entry(prev, rows, self.stream_name.as_str())?;
                    *entry = Some(next);
                    Ok(Ingested::Next)
                },
            }
        }
    }
}

/// The entry of `stream` after a later event: the same schema, and the event's
/// rows followed by the rows accumulated so far; `Concat` where arrow refuses
/// to join them.
pub fn next_entry(prev: &LogStream, rows: RecordBatch, stream: &str) -> (r: Result<LogStream, EventError>)
    ensures
        match concat_of(rows, prev.rb) {
            None => r matches Err(EventError::Concat(n, _)) && n@ == stream@,
            Some(c) => (r matches Ok(ls) && ls.schema@ == prev.schema@ && ls.rb == c)
                && batch_rows(c) == batch_rows(rows) + batch_rows(prev.rb),
        },
{
    match concat_pair(&rows, &prev.rb) {
        Ok(rb) => Ok(LogStream { schema: prev.schema.clone(), rb }),
        Err(cause) => Err(EventError::Concat(stream.to_owned(), cause)),
    }
}

} // verus!
