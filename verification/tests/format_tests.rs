//! Schema inference, type widening, schema merging, the format facade, and
//! the write-side accounting.

use std::sync::Arc;

use arrow::json::ReaderBuilder;

use ndjson_format::decode::{DecoderDeserializer, DeserializerOutput};
use ndjson_format::errors::FormatError;
use ndjson_format::format::{
    create_writer_sink, validate_insert_op, CompressionKind, FileSinkParams, InsertOp, JsonFormat,
    JsonFormatFactory, JsonOptions, JsonSink, JsonWriterOptions,
};
use ndjson_format::infer::infer_schema_from_objects;
use ndjson_format::json_decoder::{Batch, JsonDecoder};
use ndjson_format::schema::{merge_types, Field, FieldType, Schema};
use ndjson_format::serialize::JsonSerializer;
use ndjson_format::sink::{aggregate_write_results, destination_bytes, serialize_destination};

fn field_summaries(schema: &Schema) -> Vec<String> {
    schema
        .fields
        .iter()
        .map(|f| format!("{}: {:?}", f.name, f.data_type))
        .collect()
}

#[test]
fn infer_schema() {
    let data = concat_lines(&[
        "{\"a\":1,\"b\":3.5,\"c\":true,\"d\":\"text\"}",
        "{\"a\":2,\"b\":0.5,\"c\":false,\"d\":\"more\"}",
    ]);
    let format = JsonFormat::default();
    let schema = format.infer_schema(&vec![data]).expect("Schema inference");
    assert_eq!(
        field_summaries(&schema),
        vec!["a: Int64", "b: Float64", "c: Boolean", "d: Utf8"]
    );
}

fn concat_lines(lines: &[&str]) -> Vec<u8> {
    let mut out = String::new();
    for line in lines {
        out.push_str(line);
        out.push('\n');
    }
    out.into_bytes()
}

#[test]
fn infer_schema_merges_two_files() {
    let objects = vec![
        "{\"a\":1,\"b\":2.0}".as_bytes().to_vec(),
        "{\"a\":3,\"b\":null,\"c\":\"x\"}".as_bytes().to_vec(),
    ];
    let schema = infer_schema_from_objects(&objects, 1000).unwrap();
    assert_eq!(
        field_summaries(&schema),
        vec!["a: Int64", "b: Float64", "c: Utf8"]
    );
    assert!(schema.fields.iter().all(|f| f.nullable));
}

#[test]
fn infer_schema_with_limit() {
    let data = concat_lines(&[
        "{\"a\":1,\"b\":2.2,\"c\":true}",
        "{\"a\":2,\"b\":3.3,\"c\":false}",
        "{\"a\":3,\"b\":4.4,\"c\":true}",
        "{\"a\":4,\"b\":5.5,\"c\":false,\"d\":\"text\"}",
    ]);
    let format = JsonFormat::default().with_schema_infer_max_rec(3);
    let schema = format.infer_schema(&vec![data]).expect("Schema inference");
    assert_eq!(
        field_summaries(&schema),
        vec!["a: Int64", "b: Float64", "c: Boolean"]
    );
}

#[test]
fn budget_exhaustion_stops_sampling_later_objects() {
    let first = concat_lines(&["{\"a\":1}", "{\"a\":2}", "{\"a\":3}"]);
    let second = concat_lines(&["{\"z\":true}"]);
    let objects = vec![first, second];

    // Budget spent inside the first object: the second is never sampled.
    let capped = infer_schema_from_objects(&objects, 3).unwrap();
    assert_eq!(field_summaries(&capped), vec!["a: Int64"]);

    // One more record of budget reaches the second object.
    let wider = infer_schema_from_objects(&objects, 4).unwrap();
    assert_eq!(field_summaries(&wider), vec!["a: Int64", "z: Boolean"]);
}

#[test]
fn zero_objects_and_zero_budget_yield_empty_schemas() {
    let no_objects: Vec<Vec<u8>> = Vec::new();
    let empty = infer_schema_from_objects(&no_objects, 100).unwrap();
    assert_eq!(empty.fields.len(), 0);

    let objects = vec![concat_lines(&["{\"a\":1}"])];
    let unsampled = infer_schema_from_objects(&objects, 0).unwrap();
    assert_eq!(unsampled.fields.len(), 0);
}

#[test]
fn conflicting_types_fail_schema_merge() {
    let objects = vec![
        concat_lines(&["{\"a\":1}"]),
        concat_lines(&["{\"a\":true}"]),
    ];
    let err = infer_schema_from_objects(&objects, 100).unwrap_err();
    assert_eq!(err, FormatError::SchemaConflict);

    // The same conflict inside one object fails the same way.
    let one = vec![concat_lines(&["{\"a\":1}", "{\"a\":\"x\"}"])];
    assert_eq!(
        infer_schema_from_objects(&one, 100).unwrap_err(),
        FormatError::SchemaConflict
    );
}

#[test]
fn malformed_object_fails_inference() {
    let objects = vec![concat_lines(&["{\"a\":1}", "not a record"])];
    assert_eq!(
        infer_schema_from_objects(&objects, 100).unwrap_err(),
        FormatError::DecodeError
    );
}

#[test]
fn type_widening_rules() {
    assert_eq!(
        merge_types(FieldType::Int64, FieldType::Float64).unwrap(),
        FieldType::Float64
    );
    assert_eq!(
        merge_types(FieldType::Float64, FieldType::Int64).unwrap(),
        FieldType::Float64
    );
    assert_eq!(
        merge_types(FieldType::Null, FieldType::Utf8).unwrap(),
        FieldType::Utf8
    );
    assert_eq!(
        merge_types(FieldType::Boolean, FieldType::Null).unwrap(),
        FieldType::Boolean
    );
    assert_eq!(
        merge_types(FieldType::Utf8, FieldType::Utf8).unwrap(),
        FieldType::Utf8
    );
    assert_eq!(
        merge_types(FieldType::Boolean, FieldType::Utf8).unwrap_err(),
        FormatError::SchemaConflict
    );
}

fn named_field(name: &str, data_type: FieldType) -> Field {
    Field {
        name: name.to_string(),
        data_type,
        nullable: true,
    }
}

fn summary_set(schema: &Schema) -> Vec<String> {
    let mut v = field_summaries(schema);
    v.sort();
    v
}

#[test]
fn schema_merge_is_order_insensitive() {
    let a = Schema {
        fields: vec![
            named_field("x", FieldType::Int64),
            named_field("y", FieldType::Null),
        ],
    };
    let b = Schema {
        fields: vec![
            named_field("y", FieldType::Float64),
            named_field("z", FieldType::Utf8),
        ],
    };
    let ab = Schema::try_merge(&vec![a.clone(), b.clone()]).unwrap();
    let ba = Schema::try_merge(&vec![b, a]).unwrap();
    assert_eq!(summary_set(&ab), summary_set(&ba));
    assert_eq!(
        summary_set(&ab),
        vec!["x: Int64", "y: Float64", "z: Utf8"]
    );
}

#[test]
fn validate_insert_op_accepts_append_only() {
    assert!(validate_insert_op(InsertOp::Append).is_ok());
    assert_eq!(
        validate_insert_op(InsertOp::Overwrite).unwrap_err(),
        FormatError::UnsupportedOperation
    );
    assert_eq!(
        validate_insert_op(InsertOp::Replace).unwrap_err(),
        FormatError::UnsupportedOperation
    );
}

#[test]
fn format_options_round_trip() {
    let format = JsonFormat::default()
        .with_schema_infer_max_rec(7)
        .with_file_compression_type(CompressionKind::Gzip);
    assert_eq!(format.options().schema_infer_max_rec, Some(7));
    assert_eq!(format.options().compression, CompressionKind::Gzip);

    let options = JsonOptions {
        compression: CompressionKind::Zstd,
        schema_infer_max_rec: Some(11),
    };
    let format = JsonFormat::default().with_options(options);
    assert_eq!(*format.options(), options);

    assert_eq!(format.get_ext(), "json");
    assert_eq!(
        format
            .get_ext_with_compression(&CompressionKind::Uncompressed)
            .unwrap(),
        "json"
    );
    assert_eq!(
        format
            .get_ext_with_compression(&CompressionKind::Gzip)
            .unwrap(),
        "json.gz"
    );
    assert_eq!(
        format
            .get_ext_with_compression(&CompressionKind::Zstd)
            .unwrap(),
        "json.zst"
    );
}

#[test]
fn factory_carries_options_into_formats() {
    let factory = JsonFormatFactory::new();
    assert!(factory.options.is_none());
    let built = factory.create();
    assert_eq!(built.options().compression, CompressionKind::Uncompressed);
    assert_eq!(built.options().schema_infer_max_rec, None);

    let options = JsonOptions {
        compression: CompressionKind::Xz,
        schema_infer_max_rec: Some(5),
    };
    let factory = JsonFormatFactory::new_with_options(options);
    assert_eq!(*factory.create().options(), options);
}

#[test]
fn writer_sink_is_gated_on_append() {
    let opts = JsonWriterOptions {
        compression: CompressionKind::Uncompressed,
    };
    let sink = create_writer_sink(
        FileSinkParams {
            insert_op: InsertOp::Append,
        },
        opts,
    )
    .unwrap();
    assert_eq!(sink.config().insert_op, InsertOp::Append);
    assert_eq!(sink.writer_options().compression, CompressionKind::Uncompressed);
    assert_eq!(
        create_writer_sink(
            FileSinkParams {
                insert_op: InsertOp::Overwrite,
            },
            opts,
        )
        .unwrap_err(),
        FormatError::UnsupportedOperation
    );
}

#[test]
fn sink_exposes_its_configuration() {
    let sink = JsonSink::new(
        FileSinkParams {
            insert_op: InsertOp::Append,
        },
        JsonWriterOptions {
            compression: CompressionKind::Gzip,
        },
    );
    assert_eq!(sink.writer_options().compression, CompressionKind::Gzip);
    assert_eq!(sink.config().insert_op, InsertOp::Append);
}

#[test]
fn error_descriptions_name_each_failure() {
    assert_eq!(
        FormatError::ObjectReadError.describe(),
        "error reading storage object"
    );
    assert_eq!(
        FormatError::SchemaConflict.describe(),
        "incompatible field types in schema merge"
    );
    assert_eq!(FormatError::DecodeError.describe(), "malformed record bytes");
    assert_eq!(
        FormatError::EncodingError.describe(),
        "batch cannot be encoded"
    );
    assert_eq!(FormatError::WriteError.describe(), "storage append failed");
    assert_eq!(
        FormatError::UnsupportedOperation.describe(),
        "operation not supported"
    );
}

fn batches_of(lines: &[&str]) -> Vec<Batch> {
    let schema = Arc::new(arrow::datatypes::Schema::new(vec![
        arrow::datatypes::Field::new("v", arrow::datatypes::DataType::Int64, true),
    ]));
    let decoder = ReaderBuilder::new(schema)
        .with_batch_size(1)
        .build_decoder()
        .unwrap();
    let mut deserializer = DecoderDeserializer::new(JsonDecoder::new(decoder));
    deserializer.digest(&concat_lines(lines));
    deserializer.finish();
    let mut batches = Vec::new();
    loop {
        match deserializer.next().unwrap() {
            DeserializerOutput::RecordBatch(b) => batches.push(b),
            DeserializerOutput::InputExhausted => return batches,
            DeserializerOutput::RequiresMoreData => panic!("stream stalled"),
        }
    }
}

fn decode_lines(data: &[u8]) -> String {
    let schema = Arc::new(arrow::datatypes::Schema::new(vec![
        arrow::datatypes::Field::new("v", arrow::datatypes::DataType::Int64, true),
    ]));
    let decoder = ReaderBuilder::new(schema)
        .with_batch_size(64)
        .build_decoder()
        .unwrap();
    let mut deserializer = DecoderDeserializer::new(JsonDecoder::new(decoder));
    deserializer.digest(data);
    deserializer.finish();
    let serializer = JsonSerializer::new();
    let mut out = String::new();
    loop {
        match deserializer.next().unwrap() {
            DeserializerOutput::RecordBatch(b) => {
                out.push_str(&String::from_utf8(serializer.serialize(&b, true).unwrap()).unwrap());
            }
            DeserializerOutput::InputExhausted => return out,
            DeserializerOutput::RequiresMoreData => panic!("stream stalled"),
        }
    }
}

#[test]
fn partitioned_write_reports_total_bytes_and_round_trips() {
    // Five batches routed across three destinations by an external
    // demultiplexer; each destination writes independently.
    let routed: Vec<Vec<&str>> = vec![
        vec!["{\"v\":1}", "{\"v\":2}"],
        vec!["{\"v\":10}"],
        vec!["{\"v\":100}", "{\"v\":200}"],
    ];

    let mut files: Vec<Vec<u8>> = Vec::new();
    let mut results: Vec<Result<u64, FormatError>> = Vec::new();
    for rows in &routed {
        let batches = batches_of(rows);
        let payloads = serialize_destination(&batches).unwrap();
        let mut file: Vec<u8> = Vec::new();
        for p in &payloads {
            file.extend_from_slice(p);
        }
        results.push(Ok(destination_bytes(&payloads)));
        files.push(file);
    }

    assert_eq!(files.len(), 3);
    let total = aggregate_write_results(&results).unwrap();
    let actual: u64 = files.iter().map(|f| f.len() as u64).sum();
    assert_eq!(total, actual);

    // Each destination object, decoded back, holds exactly the rows routed
    // to it.
    for (file, rows) in files.iter().zip(routed.iter()) {
        let decoded = decode_lines(file);
        let expected = String::from_utf8(concat_lines(rows)).unwrap();
        assert_eq!(decoded, expected);
    }
}

#[test]
fn failed_destination_leaves_siblings_written() {
    let routed: Vec<Vec<&str>> = vec![
        vec!["{\"v\":1}"],
        vec!["{\"v\":2}"],
        vec!["{\"v\":3}"],
    ];
    let mut files: Vec<Option<Vec<u8>>> = Vec::new();
    let mut results: Vec<Result<u64, FormatError>> = Vec::new();
    for (k, rows) in routed.iter().enumerate() {
        if k == 1 {
            // The middle destination's append fails; its partial bytes are
            // discarded and nothing of it is committed.
            files.push(None);
            results.push(Err(FormatError::WriteError));
            continue;
        }
        let batches = batches_of(rows);
        let payloads = serialize_destination(&batches).unwrap();
        let mut file: Vec<u8> = Vec::new();
        for p in &payloads {
            file.extend_from_slice(p);
        }
        results.push(Ok(destination_bytes(&payloads)));
        files.push(Some(file));
    }

    // The join reports the failure ...
    assert_eq!(
        aggregate_write_results(&results).unwrap_err(),
        FormatError::WriteError
    );
    // ... while the sibling destinations stay durably written and readable.
    assert_eq!(decode_lines(files[0].as_ref().unwrap()), "{\"v\":1}\n");
    assert_eq!(decode_lines(files[2].as_ref().unwrap()), "{\"v\":3}\n");
}

#[test]
fn aggregate_reports_sum_or_first_error() {
    let all_ok: Vec<Result<u64, FormatError>> = vec![Ok(3), Ok(4), Ok(0)];
    assert_eq!(aggregate_write_results(&all_ok).unwrap(), 7);

    let none: Vec<Result<u64, FormatError>> = Vec::new();
    assert_eq!(aggregate_write_results(&none).unwrap(), 0);

    let mixed: Vec<Result<u64, FormatError>> = vec![
        Ok(1),
        Err(FormatError::EncodingError),
        Err(FormatError::WriteError),
    ];
    assert_eq!(
        aggregate_write_results(&mixed).unwrap_err(),
        FormatError::EncodingError
    );
}
