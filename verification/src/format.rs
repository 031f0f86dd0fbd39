//! The format facade: options, the line-delimited JSON format type, its
//! factory, and the sink configuration for writing query output back out.

use vstd::prelude::*;
use crate::errors::FormatError;
use crate::infer::{spec_infer, SchemaMap};
use crate::infer::infer_schema_from_objects;
use crate::schema::Schema;

verus! {

/// Default cap on the records sampled per schema-inference run.
pub const DEFAULT_SCHEMA_INFER_MAX_RECORD: usize = 1000;

/// Compression wrapped around a whole object's byte stream (never per line).
#[derive(Clone, Copy, Debug, PartialEq, Eq, Structural)]
pub enum CompressionKind {
    Uncompressed,
    Gzip,
    Bzip2,
    Xz,
    Zstd,
}

impl CompressionKind {
    /// The file extension suffix this compression adds.
    pub open spec fn spec_ext(&self) -> Seq<char> {
        match self {
            CompressionKind::Uncompressed => ""@,
            CompressionKind::Gzip => ".gz"@,
            CompressionKind::Bzip2 => ".bz2"@,
            CompressionKind::Xz => ".xz"@,
            CompressionKind::Zstd => ".zst"@,
        }
    }

    /// The file extension suffix this compression adds.
    pub fn get_ext(&self) -> (r: &'static str)
        ensures
            r@ == self.spec_ext(),
    {
        match self {
            CompressionKind::Uncompressed => "",
            CompressionKind::Gzip => ".gz",
            CompressionKind::Bzip2 => ".bz2",
            CompressionKind::Xz => ".xz",
            CompressionKind::Zstd => ".zst",
        }
    }
}

/// How rows are inserted into an existing destination.
#[derive(Clone, Copy, Debug, PartialEq, Eq, Structural)]
pub enum InsertOp {
    /// New rows are appended after the existing ones.
    Append,
    /// The destination's rows are replaced wholesale.
    Overwrite,
    /// Matching rows are replaced in place.
    Replace,
}

/// Append is the only insert mode this format implements; any other is
/// rejected before any work starts.
pub fn validate_insert_op(op: InsertOp) -> (r: Result<(), FormatError>)
    ensures
        r is Ok <==> op == InsertOp::Append,
        r matches Err(e) ==> e == FormatError::UnsupportedOperation,
{
    if op == InsertOp::Append {
        Ok(())
    } else {
        Err(FormatError::UnsupportedOperation)
    }
}

/// Immutable configuration snapshot of one format instance.
#[derive(Clone, Copy, Debug, PartialEq, Eq, Structural)]
pub struct JsonOptions {
    /// Compression of the source and destination objects.
    pub compression: CompressionKind,
    /// Cap on the records sampled for schema inference, shared across all
    /// objects of one run; the default cap when unset.
    pub schema_infer_max_rec: Option<usize>,
}

impl Default for JsonOptions {
    /// Uncompressed, with the inference cap left to its default.
    fn default() -> (r: JsonOptions)
        ensures
            r.compression == CompressionKind::Uncompressed,
            r.schema_infer_max_rec is None,
    {
        JsonOptions { compression: CompressionKind::Uncompressed, schema_infer_max_rec: None }
    }
}

/// New line delimited JSON `FileFormat` implementation.
#[derive(Clone, Copy, Debug, PartialEq, Eq, Structural)]
pub struct JsonFormat {
    options: JsonOptions,
}

impl Default for JsonFormat {
    /// The format with default options.
    fn default() -> (r: JsonFormat)
        ensures
            r.spec_options().compression == CompressionKind::Uncompressed,
            r.spec_options().schema_infer_max_rec is None,
    {
        JsonFormat {
            options: JsonOptions {
                compression: CompressionKind::Uncompressed,
                schema_infer_max_rec: None,
            },
        }
    }
}

impl JsonFormat {
    /// The options this format was configured with.
    pub closed spec fn spec_options(&self) -> JsonOptions {
        self.options
    }

    /// The record budget inference runs under: the configured cap, or the
    /// default.
    pub closed spec fn spec_max_records(&self) -> int {
        match self.options.schema_infer_max_rec {
            Some(n) => n as int,
            None => DEFAULT_SCHEMA_INFER_MAX_RECORD as int,
        }
    }

    /// The inference budget is determined by the options alone: the
    /// configured cap where one is set, the default cap where none is.
    pub proof fn lemma_max_records(&self)
        ensures
            self.spec_max_records() == match self.spec_options().schema_infer_max_rec {
                Some(n) => n as int,
                None => DEFAULT_SCHEMA_INFER_MAX_RECORD as int,
            },
    {
    }

    /// Set JSON options
    pub fn with_options(self, options: JsonOptions) -> (r: Self)
        ensures
            r.spec_options() == options,
    {
        JsonFormat { options }
    }

    /// Retrieve JSON options
    pub fn options(&self) -> (r: &JsonOptions)
        ensures
            *r == self.spec_options(),
    {
        &self.options
    }

    /// Set a limit in terms of records to scan to infer the schema
    /// - defaults to `DEFAULT_SCHEMA_INFER_MAX_RECORD`
    pub fn with_schema_infer_max_rec(self, max_rec: usize) -> (r: Self)
        ensures
            r.spec_options().schema_infer_max_rec == Some(max_rec),
            r.spec_options().compression == self.spec_options().compression,
    {
        JsonFormat {
            options: JsonOptions {
                compression: self.options.compression,
                schema_infer_max_rec: Some(max_rec),
            },
        }
    }

    /// Set the compression of the format's objects
    /// - defaults to `CompressionKind::Uncompressed`
    pub fn with_file_compression_type(self, file_compression_type: CompressionKind) -> (r: Self)
        ensures
            r.spec_options().compression == file_compression_type,
            r.spec_options().schema_infer_max_rec == self.spec_options().schema_infer_max_rec,
    {
        JsonFormat {
            options: JsonOptions {
                compression: file_compression_type,
                schema_infer_max_rec: self.options.schema_infer_max_rec,
            },
        }
    }

    /// The bare file extension of the format, without a dot.
    pub fn get_ext(&self) -> (r: &'static str)
        ensures
            r@ == "json"@,
    {
        "json"
    }

    /// The file extension of the format under the given compression: the
    /// bare extension with the compression's suffix.
    pub fn get_ext_with_compression(&self, file_compression_type: &CompressionKind) -> (r: Result<
        String,
        FormatError,
    >)
        ensures
            r matches Ok(s) ==> s@ == "json"@ + file_compression_type.spec_ext(),
            r is Ok,
    {
        proof {
            reveal_strlit("json");
            reveal_strlit("");
            reveal_strlit(".gz");
            reveal_strlit(".bz2");
            reveal_strlit(".xz");
            reveal_strlit(".zst");
            reveal_strlit("json.gz");
            reveal_strlit("json.bz2");
            reveal_strlit("json.xz");
            reveal_strlit("json.zst");
        }
        let ext: &'static str = match file_compression_type {
            CompressionKind::Uncompressed => "json",
            CompressionKind::Gzip => "json.gz",
            CompressionKind::Bzip2 => "json.bz2",
            CompressionKind::Xz => "json.xz",
            CompressionKind::Zstd => "json.zst",
        };
        proof {
            assert(ext@ =~= "json"@ + file_compression_type.spec_ext());
        }
        Ok(ext.to_owned())
    }

    /// Infers the table schema of the source objects, each given as its
    /// decompressed bytes, sampling at most the configured record cap across
    /// all of them.
    pub fn infer_schema(&self, objects: &Vec<Vec<u8>>) -> (r: Result<Schema, FormatError>)
        ensures
            r matches Ok(s) ==> s.wf() && spec_infer(objects@, self.spec_max_records()) == Ok::<
                SchemaMap,
                FormatError,
            >(s.spec_map()),
            r matches Err(e) ==> spec_infer(objects@, self.spec_max_records()) == Err::<
                SchemaMap,
                FormatError,
            >(e),
            r is Ok <==> spec_infer(objects@, self.spec_max_records()) is Ok,
    {
        let max_records = match self.options.schema_infer_max_rec {
            Some(n) => n,
            None => DEFAULT_SCHEMA_INFER_MAX_RECORD,
        };
        infer_schema_from_objects(objects, max_records)
    }
}

/// Factory struct used to create [JsonFormat]
#[derive(Debug)]
pub struct JsonFormatFactory {
    /// the options carried by format factory
    pub options: Option<JsonOptions>,
}

impl JsonFormatFactory {
    /// Creates an instance of [JsonFormatFactory]
    pub fn new() -> (r: Self)
        ensures
            r.options is None,
    {
        JsonFormatFactory { options: None }
    }

    /// Creates an instance of [JsonFormatFactory] with customized default options
    pub fn new_with_options(options: JsonOptions) -> (r: Self)
        ensures
            r.options == Some(options),
    {
        JsonFormatFactory { options: Some(options) }
    }

    /// The format the factory's options configure: its own options where it
    /// carries some, the defaults otherwise.
    pub fn create(&self) -> (r: JsonFormat)
        ensures
            self.options matches Some(o) ==> r.spec_options() == o,
            self.options is None ==> r.spec_options() == (JsonOptions {
                compression: CompressionKind::Uncompressed,
                schema_infer_max_rec: None,
            }),
    {
        match &self.options {
            Some(o) => JsonFormat { options: *o },
            None => JsonFormat::default(),
        }
    }
}

impl Default for JsonFormatFactory {
    /// A factory carrying no options.
    fn default() -> (r: JsonFormatFactory)
        ensures
            r.options is None,
    {
        JsonFormatFactory::new()
    }
}

/// Writer options for underlying Json writer
#[derive(Clone, Copy, Debug, PartialEq, Eq, Structural)]
pub struct JsonWriterOptions {
    /// Compression applied to each destination object's byte stream.
    pub compression: CompressionKind,
}

/// Configuration of one write: how rows are inserted.
#[derive(Clone, Copy, Debug, PartialEq, Eq, Structural)]
pub struct FileSinkParams {
    /// The requested insert mode; only `Append` is implemented.
    pub insert_op: InsertOp,
}

/// Builds the sink of a write plan, validating the requested insert mode
/// first: an append-only sink comes back for an `Append` request, and any
/// other mode is rejected before any work starts.
pub fn create_writer_sink(config: FileSinkParams, writer_options: JsonWriterOptions) -> (r: Result<
    JsonSink,
    FormatError,
>)
    ensures
        r is Ok <==> config.insert_op == InsertOp::Append,
        r matches Ok(s) ==> s.spec_config() == config && s.spec_writer_options()
            == writer_options,
        r matches Err(e) ==> e == FormatError::UnsupportedOperation,
{
    match validate_insert_op(config.insert_op) {
        Ok(_) => Ok(JsonSink::new(config, writer_options)),
        Err(e) => Err(e),
    }
}

/// Implements the data sink for writing to Json files.
#[derive(Clone, Copy, Debug, PartialEq, Eq, Structural)]
pub struct JsonSink {
    config: FileSinkParams,
    writer_options: JsonWriterOptions,
}

impl JsonSink {
    /// Create from config.
    pub fn new(config: FileSinkParams, writer_options: JsonWriterOptions) -> (r: Self)
        ensures
            r.spec_config() == config,
            r.spec_writer_options() == writer_options,
    {
        JsonSink { config, writer_options }
    }

    /// The sink's configuration.
    pub closed spec fn spec_config(&self) -> FileSinkParams {
        self.config
    }

    /// The sink's writer options.
    pub closed spec fn spec_writer_options(&self) -> JsonWriterOptions {
        self.writer_options
    }

    /// Retrieve the writer options
    pub fn writer_options(&self) -> (r: &JsonWriterOptions)
        ensures
            *r == self.spec_writer_options(),
    {
        &self.writer_options
    }

    /// The sink's configuration.
    pub fn config(&self) -> (r: &FileSinkParams)
        ensures
            *r == self.spec_config(),
    {
        &self.config
    }
}

} // verus!
