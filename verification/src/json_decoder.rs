//! The chunk decoder for line-delimited JSON: arrow's incremental JSON
//! decoder behind this library's `ChunkDecoder` contract.

use vstd::prelude::*;
use crate::decode::ChunkDecoder;
use crate::errors::FormatError;

verus! {

/// Arrow's incremental JSON decoder.
#[verifier::external_type_specification]
#[verifier::external_body]
pub struct ExArrowJsonDecoder(arrow::json::reader::Decoder);

/// An arrow columnar record batch, held opaquely: batches move through this
/// library from decoder to serializer without being opened.
#[verifier::external_body]
#[derive(Debug)]
pub struct Batch {
    pub(crate) inner: arrow::array::RecordBatch,
}

/// The bytes an arrow JSON decoder has consumed so far, oldest first.
pub uninterp spec fn decoder_consumed(d: arrow::json::reader::Decoder) -> Seq<u8>;

/// How many complete JSON records a byte stream holds, read from a clean
/// start.
pub uninterp spec fn json_records_in(s: Seq<u8>) -> nat;

/// How many complete records an arrow JSON decoder holds, parsed but not yet
/// flushed.
pub uninterp spec fn decoder_rows(d: arrow::json::reader::Decoder) -> nat;

/// The batch size an arrow JSON decoder was built with: how many records it
/// buffers before refusing further bytes.
pub uninterp spec fn decoder_batch_size(d: arrow::json::reader::Decoder) -> nat;

/// The rows an arrow record batch carries.
pub uninterp spec fn batch_row_count(b: Batch) -> nat;

/// Whether an arrow JSON decoder was configured to flatten top-level arrays,
/// counting each array element as a row; a plain decoder of newline-delimited
/// records does not.
pub uninterp spec fn decoder_flattens(d: arrow::json::reader::Decoder) -> bool;

/// Whether a decoder's configuration accepts a byte stream, read from a clean
/// start: complete records, none left unfinished at the end, every value
/// fitting the decoder's schema. Decoding and flushing an accepted stream
/// never fails.
pub uninterp spec fn decoder_accepts(d: arrow::json::reader::Decoder, s: Seq<u8>) -> bool;

/// Relies on arrow's json::reader::Decoder::decode: reads record bytes from
/// the front of `buf` and returns how many it consumed — fewer than all of
/// them only once a full batch of records is buffered, at a record boundary.
/// Each record completed by the consumed bytes joins the buffered records
/// (row for row only for a non-flattening decoder), a structural error is
/// raised only within a stream the configuration does not accept, and the
/// configuration itself never changes.
#[verifier::external_body]
fn arrow_decode(d: &mut arrow::json::reader::Decoder, buf: &[u8]) -> (r: Result<usize, FormatError>)
    ensures
        r matches Ok(n) ==> n <= buf@.len() && decoder_consumed(*final(d)) == decoder_consumed(
            *old(d),
        ) + buf@.take(n as int),
        r matches Ok(n) ==> decoder_rows(*final(d)) >= decoder_rows(*old(d)),
        r matches Ok(n) && !decoder_flattens(*old(d)) ==> json_records_in(
            decoder_consumed(*final(d)),
        ) + decoder_rows(*old(d)) == json_records_in(decoder_consumed(*old(d))) + decoder_rows(
            *final(d),
        ),
        r matches Ok(n) && n < buf@.len() ==> decoder_rows(*final(d)) >= decoder_batch_size(
            *old(d),
        ),
        decoder_accepts(*old(d), decoder_consumed(*old(d)) + buf@) ==> r is Ok,
        r matches Ok(n) && n < buf@.len() && !decoder_flattens(*old(d)) && decoder_accepts(
            *old(d),
            decoder_consumed(*old(d)) + buf@,
        ) ==> decoder_accepts(*final(d), decoder_consumed(*final(d))),
        r is Ok ==> forall|s: Seq<u8>| decoder_accepts(*final(d), s) == decoder_accepts(
            *old(d),
            s,
        ),
        r is Ok ==> decoder_batch_size(*final(d)) == decoder_batch_size(*old(d)),
        r is Ok ==> decoder_flattens(*final(d)) == decoder_flattens(*old(d)),
{
    d.decode(buf).map_err(|_| FormatError::DecodeError)
}

/// Relies on arrow's json::reader::Decoder::flush: returns `None` exactly
/// when no complete record is buffered; otherwise drains every buffered
/// record into one batch. It reads no further input bytes, and it errors —
/// rather than dropping rows — when called mid-record or when a buffered
/// value does not fit the schema.
#[verifier::external_body]
fn arrow_flush(d: &mut arrow::json::reader::Decoder) -> (r: Result<Option<Batch>, FormatError>)
    ensures
        r is Ok ==> decoder_consumed(*final(d)) == decoder_consumed(*old(d)),
        r matches Ok(o) ==> (o is None <==> decoder_rows(*old(d)) == 0),
        r matches Ok(o) && o is None ==> decoder_rows(*final(d)) == decoder_rows(*old(d)),
        r matches Ok(Some(b)) ==> batch_row_count(b) == decoder_rows(*old(d))
            && decoder_rows(*final(d)) == 0,
        decoder_accepts(*old(d), decoder_consumed(*old(d))) ==> r is Ok,
        r is Ok ==> forall|s: Seq<u8>| decoder_accepts(*final(d), s) == decoder_accepts(
            *old(d),
            s,
        ),
        r is Ok ==> decoder_batch_size(*final(d)) == decoder_batch_size(*old(d)),
        r is Ok ==> decoder_flattens(*final(d)) == decoder_flattens(*old(d)),
{
    match d.flush() {
        Ok(Some(b)) => Ok(Some(Batch { inner: b })),
        Ok(None) => Ok(None),
        Err(_) => Err(FormatError::DecodeError),
    }
}

/// An incremental decoder of line-delimited JSON bytes into record batches,
/// wrapping arrow's JSON decoder.
pub struct JsonDecoder {
    inner: arrow::json::reader::Decoder,
}

impl JsonDecoder {
    /// Takes ownership of a configured arrow JSON decoder.
    pub fn new(decoder: arrow::json::reader::Decoder) -> (r: JsonDecoder)
        ensures
            r.consumed() == decoder_consumed(decoder),
            r.pending_rows() == decoder_rows(decoder),
    {
        JsonDecoder { inner: decoder }
    }
}

impl ChunkDecoder for JsonDecoder {
    type Batch = Batch;

    closed spec fn consumed(&self) -> Seq<u8> {
        decoder_consumed(self.inner)
    }

    closed spec fn accepts(&self, s: Seq<u8>) -> bool {
        decoder_accepts(self.inner, s)
    }

    closed spec fn conserves_records(&self) -> bool {
        !decoder_flattens(self.inner)
    }

    open spec fn records_in(s: Seq<u8>) -> nat {
        json_records_in(s)
    }

    closed spec fn pending_rows(&self) -> nat {
        decoder_rows(self.inner)
    }

    open spec fn batch_rows(b: &Batch) -> nat {
        batch_row_count(*b)
    }

    closed spec fn batch_capacity(&self) -> nat {
        decoder_batch_size(self.inner)
    }

    open spec fn flushes_early(&self) -> bool {
        false
    }

    /// Arrow's JSON decoder only flushes complete buffered rows when asked;
    /// it never yields a batch early.
    fn can_flush_early(&self) -> (r: bool) {
        false
    }

    fn decode(&mut self, buf: &[u8]) -> (r: Result<usize, FormatError>) {
        arrow_decode(&mut self.inner, buf)
    }

    fn flush(&mut self) -> (r: Result<Option<Batch>, FormatError>) {
        arrow_flush(&mut self.inner)
    }
}

} // verus!
