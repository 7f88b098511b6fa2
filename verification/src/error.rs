//! Error types shared by the codec and store layers.
use vstd::prelude::*;

verus! {

/// Raised when a numeric code has no registered codec: the offending code is
/// carried so the caller can report it.
#[derive(Clone, Copy, Debug, PartialEq, Eq, Structural)]
pub struct UnsupportedCodec(pub u64);

/// Failures of encoding, decoding and reference scanning.
#[derive(Clone, Copy, Debug, PartialEq, Eq, Structural)]
pub enum CodecError {
    /// The value is not representable under the chosen codec, or the input
    /// byte is not the encoding of the null value.
    NotNull,
    /// The input ended before a complete value could be read.
    Truncated,
}

/// Failures of block store operations.
#[derive(Clone, Copy, Debug, PartialEq, Eq, Structural)]
pub enum BlockError {
    /// The block is not present in the store.
    NotFound,
    /// A network fetch did not produce the block.
    FetchFailed,
}

} // verus!
