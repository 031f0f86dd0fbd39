//! The error taxonomy surfaced by schema inference, decoding, serialization
//! and the write path.

use vstd::prelude::*;

verus! {

/// Typed failures of the format layer.
#[derive(Clone, Copy, Debug, PartialEq, Eq, Structural)]
pub enum FormatError {
    /// Storage I/O failed while sampling or reading an object.
    ObjectReadError,
    /// Two sources define the same field name with incompatible types.
    SchemaConflict,
    /// Malformed record bytes; fatal to the owning decode stream.
    DecodeError,
    /// A batch cannot be serialized to the wire format.
    EncodingError,
    /// A storage append failed; fatal to the owning writer task.
    WriteError,
    /// The requested mode of operation is not implemented.
    UnsupportedOperation,
}

impl FormatError {
    /// A short human-readable description of the error.
    pub fn describe(&self) -> (r: &'static str)
        ensures
            r@ == self.spec_describe(),
    {
        match self {
            FormatError::ObjectReadError => "error reading storage object",
            FormatError::SchemaConflict => "incompatible field types in schema merge",
            FormatError::DecodeError => "malformed record bytes",
            FormatError::EncodingError => "batch cannot be encoded",
            FormatError::WriteError => "storage append failed",
            FormatError::UnsupportedOperation => "operation not supported",
        }
    }

    /// The description `describe` returns for each variant.
    pub open spec fn spec_describe(&self) -> Seq<char> {
        match self {
            FormatError::ObjectReadError => "error reading storage object"@,
            FormatError::SchemaConflict => "incompatible field types in schema merge"@,
            FormatError::DecodeError => "malformed record bytes"@,
            FormatError::EncodingError => "batch cannot be encoded"@,
            FormatError::WriteError => "storage append failed"@,
            FormatError::UnsupportedOperation => "operation not supported"@,
        }
    }
}

} // verus!
