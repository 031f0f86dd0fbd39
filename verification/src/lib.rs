//! Line-delimited JSON file-format support: schema inference over sampled
//! records, an incremental chunk-decoding state machine, and write-side
//! serialization and byte accounting.

pub mod decode;
pub mod errors;
pub mod format;
pub mod infer;
pub mod json_decoder;
pub mod schema;
pub mod serialize;
pub mod sink;
