//! Serializing record batches to the line-delimited JSON wire format.

use vstd::prelude::*;
use crate::errors::FormatError;
use crate::json_decoder::Batch;

verus! {

/// The line-delimited JSON encoding of a batch: one self-contained JSON
/// object per row, each on its own line. A function of the batch alone.
pub uninterp spec fn json_lines_of(batch: Batch) -> Seq<u8>;

/// Whether every cell of the batch is representable in the line-delimited
/// JSON encoding. Arrow's writer succeeds or fails as a function of the batch
/// alone.
pub uninterp spec fn encodable(batch: Batch) -> bool;

/// Relies on arrow's json::LineDelimitedWriter: writes every row of the
/// batch as one JSON object per line into a byte buffer; it fails exactly on
/// a batch whose data cannot be rendered in the encoding, writing into a
/// `Vec` never does.
#[verifier::external_body]
fn write_json_lines(batch: &Batch) -> (r: Result<Vec<u8>, FormatError>)
    ensures
        r is Ok <==> encodable(*batch),
        r matches Ok(payload) ==> payload@ == json_lines_of(*batch),
        r matches Err(e) ==> e == FormatError::EncodingError,
{
    let mut buffer = Vec::with_capacity(4096);
    let mut writer = arrow::json::LineDelimitedWriter::new(&mut buffer);
    writer.write(&batch.inner).map_err(|_| FormatError::EncodingError)?;
    drop(writer);
    Ok(buffer)
}

/// Define a struct for serializing Json records to a stream
pub struct JsonSerializer {}

impl JsonSerializer {
    /// Constructor for the JsonSerializer object
    pub fn new() -> (r: JsonSerializer) {
        JsonSerializer {}
    }

    /// Encodes one batch as line-delimited JSON. Every row becomes one
    /// self-contained line, independent of the batch's position in its file:
    /// `initial` is accepted only for symmetry with formats that frame their
    /// files, and has no effect on the payload.
    pub fn serialize(&self, batch: &Batch, _initial: bool) -> (r: Result<
        Vec<u8>,
        FormatError,
    >)
        ensures
            r is Ok <==> encodable(*batch),
            r matches Ok(payload) ==> payload@ == json_lines_of(*batch),
            r matches Err(e) ==> e == FormatError::EncodingError,
    {
        write_json_lines(batch)
    }
}

impl Default for JsonSerializer {
    /// The serializer carries no state; the default is the serializer.
    fn default() -> (r: JsonSerializer) {
        JsonSerializer::new()
    }
}

} // verus!
