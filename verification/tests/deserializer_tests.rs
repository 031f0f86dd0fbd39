//! The incremental deserializer driven through arrow's JSON decoder: the
//! digest/finish/next protocol, chunk-boundary invariance, and error
//! stickiness.

use std::sync::Arc;

use arrow::datatypes::{DataType, Field, Schema};
use arrow::json::ReaderBuilder;

use ndjson_format::decode::{DecoderDeserializer, DeserializerOutput};
use ndjson_format::errors::FormatError;
use ndjson_format::json_decoder::{Batch, JsonDecoder};
use ndjson_format::serialize::JsonSerializer;

fn five_column_schema() -> Arc<Schema> {
    Arc::new(Schema::new(vec![
        Field::new("c1", DataType::Int64, true),
        Field::new("c2", DataType::Int64, true),
        Field::new("c3", DataType::Int64, true),
        Field::new("c4", DataType::Int64, true),
        Field::new("c5", DataType::Int64, true),
    ]))
}

fn json_deserializer(batch_size: usize) -> DecoderDeserializer<JsonDecoder> {
    let decoder = ReaderBuilder::new(five_column_schema())
        .with_batch_size(batch_size)
        .build_decoder()
        .unwrap();
    DecoderDeserializer::new(JsonDecoder::new(decoder))
}

fn batch_lines(batch: &Batch) -> String {
    let bytes = JsonSerializer::new().serialize(batch, true).unwrap();
    String::from_utf8(bytes).unwrap()
}

fn drain_lines(deserializer: &mut DecoderDeserializer<JsonDecoder>) -> String {
    let mut lines = String::new();
    loop {
        match deserializer.next().unwrap() {
            DeserializerOutput::RecordBatch(batch) => lines.push_str(&batch_lines(&batch)),
            DeserializerOutput::InputExhausted => return lines,
            DeserializerOutput::RequiresMoreData => panic!("stream stalled before exhaustion"),
        }
    }
}

const ROW1: &str = "{\"c1\":1,\"c2\":2,\"c3\":3,\"c4\":4,\"c5\":5}\n";
const ROW2: &str = "{\"c1\":6,\"c2\":7,\"c3\":8,\"c4\":9,\"c5\":10}\n";
const ROW3: &str = "{\"c1\":11,\"c2\":12,\"c3\":13,\"c4\":14,\"c5\":15}\n";

#[test]
fn test_json_deserializer_finish() {
    let mut deserializer = json_deserializer(1);

    deserializer.digest(r#"{ "c1": 1, "c2": 2, "c3": 3, "c4": 4, "c5": 5 }"#.as_bytes());
    deserializer.digest(r#"{ "c1": 6, "c2": 7, "c3": 8, "c4": 9, "c5": 10 }"#.as_bytes());
    deserializer.digest(r#"{ "c1": 11, "c2": 12, "c3": 13, "c4": 14, "c5": 15 }"#.as_bytes());
    deserializer.finish();

    let mut all_rows = String::new();
    for _ in 0..3 {
        let output = deserializer.next().unwrap();
        let DeserializerOutput::RecordBatch(batch) = output else {
            panic!("Expected RecordBatch, got {:?}", output);
        };
        all_rows.push_str(&batch_lines(&batch));
    }
    assert!(matches!(
        deserializer.next().unwrap(),
        DeserializerOutput::InputExhausted
    ));

    let expected = format!("{}{}{}", ROW1, ROW2, ROW3);
    assert_eq!(all_rows, expected);
}

#[test]
fn test_json_deserializer_no_finish() {
    let mut deserializer = json_deserializer(1);

    deserializer.digest(r#"{ "c1": 1, "c2": 2, "c3": 3, "c4": 4, "c5": 5 }"#.as_bytes());
    deserializer.digest(r#"{ "c1": 6, "c2": 7, "c3": 8, "c4": 9, "c5": 10 }"#.as_bytes());
    deserializer.digest(r#"{ "c1": 11, "c2": 12, "c3": 13, "c4": 14, "c5": 15 }"#.as_bytes());

    let mut all_rows = String::new();
    // The third row stays buffered in the decoder until finish: only two
    // batches come out before the stream asks for more data.
    for _ in 0..2 {
        let output = deserializer.next().unwrap();
        let DeserializerOutput::RecordBatch(batch) = output else {
            panic!("Expected RecordBatch, got {:?}", output);
        };
        all_rows.push_str(&batch_lines(&batch));
    }
    assert!(matches!(
        deserializer.next().unwrap(),
        DeserializerOutput::RequiresMoreData
    ));

    let expected = format!("{}{}", ROW1, ROW2);
    assert_eq!(all_rows, expected);
}

#[test]
fn finish_after_stall_drains_the_buffered_row() {
    let mut deserializer = json_deserializer(1);

    deserializer.digest("{\"c1\":1,\"c2\":2,\"c3\":3,\"c4\":4,\"c5\":5}\n".as_bytes());
    deserializer.digest("{\"c1\":6,\"c2\":7,\"c3\":8,\"c4\":9,\"c5\":10}\n".as_bytes());
    deserializer.digest("{\"c1\":11,\"c2\":12,\"c3\":13,\"c4\":14,\"c5\":15}\n".as_bytes());

    let mut rows = String::new();
    loop {
        match deserializer.next().unwrap() {
            DeserializerOutput::RecordBatch(batch) => rows.push_str(&batch_lines(&batch)),
            DeserializerOutput::RequiresMoreData => break,
            DeserializerOutput::InputExhausted => panic!("exhausted before finish"),
        }
    }
    assert_eq!(rows, format!("{}{}", ROW1, ROW2));

    deserializer.finish();
    let rest = drain_lines(&mut deserializer);
    assert_eq!(rest, ROW3.to_string());
    // The terminal state is idempotent.
    assert!(matches!(
        deserializer.next().unwrap(),
        DeserializerOutput::InputExhausted
    ));
}

#[test]
fn next_before_any_digest_requires_more_data() {
    let mut deserializer = json_deserializer(1);
    assert!(matches!(
        deserializer.next().unwrap(),
        DeserializerOutput::RequiresMoreData
    ));
    assert!(matches!(
        deserializer.next().unwrap(),
        DeserializerOutput::RequiresMoreData
    ));
    deserializer.finish();
    assert!(matches!(
        deserializer.next().unwrap(),
        DeserializerOutput::InputExhausted
    ));
    assert!(matches!(
        deserializer.next().unwrap(),
        DeserializerOutput::InputExhausted
    ));
}

#[test]
fn chunk_boundaries_do_not_change_rows() {
    let data = format!("{}{}{}", ROW1, ROW2, ROW3);
    let bytes = data.as_bytes();

    let mut whole = json_deserializer(2);
    whole.digest(bytes);
    whole.finish();
    let whole_rows = drain_lines(&mut whole);

    // Split mid-record, mid-number, and right before the trailing newline.
    let cuts = [3usize, 17, 18, 40, bytes.len() - 1];
    let mut split = json_deserializer(2);
    let mut start = 0usize;
    for cut in cuts {
        split.digest(&bytes[start..cut]);
        start = cut;
    }
    split.digest(&bytes[start..]);
    split.finish();
    let split_rows = drain_lines(&mut split);

    assert_eq!(whole_rows, split_rows);
    assert_eq!(whole_rows, data);
}

#[test]
fn malformed_record_is_a_sticky_decode_error() {
    let mut deserializer = json_deserializer(1);
    deserializer.digest("{\"c1\": nonsense}".as_bytes());
    deserializer.finish();

    let first = deserializer.next();
    assert_eq!(first.unwrap_err(), FormatError::DecodeError);
    // The error is terminal: every later pull re-raises it.
    let second = deserializer.next();
    assert_eq!(second.unwrap_err(), FormatError::DecodeError);
}

#[test]
fn serializer_emits_canonical_lines() {
    let mut deserializer = json_deserializer(8);
    // Padded, whitespace-heavy input: the serialized form is the canonical
    // compact encoding, not the input bytes handed back.
    deserializer.digest("{ \"c1\" : 1 , \"c2\":2, \"c3\":3, \"c4\":4, \"c5\":5 }".as_bytes());
    deserializer.finish();
    let rows = drain_lines(&mut deserializer);
    assert_eq!(rows, ROW1.to_string());
}
