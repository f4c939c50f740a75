use vstd::prelude::*;

verus! {

/// Why `compress` failed.
#[derive(Debug, Clone, Copy, PartialEq, Eq, Structural)]
pub enum CompressionError {
    /// The encoder could not complete its working buffers.
    ResourceExhausted,
}

/// Why `decompress` failed.
///
/// The DEFLATE decoder (flate2) reports every fault inside a Huffman-coded
/// block the same way, so an unresolvable Huffman code and a back-reference
/// before the start of the output share the kind `CorruptStream`. Decoding
/// into memory has no failure of its own (an allocation failure aborts), so
/// there is no kind for exhausted resources.
#[derive(Debug, Clone, Copy, PartialEq, Eq, Structural)]
pub enum DecompressionError {
    /// The magic bytes, the method or the flags byte are not those of a plain
    /// gzip member.
    InvalidHeader,
    /// A block of the entropy stream has the reserved block type.
    InvalidBlockType,
    /// A stored block's length disagrees with its one's complement.
    InvalidStoredBlock,
    /// The DEFLATE decoder rejected a Huffman-coded block: a code that names
    /// no symbol, or a back-reference before the start of the output.
    CorruptStream,
    /// The input ends before the container or the entropy stream is complete.
    UnexpectedEndOfStream,
    /// The CRC-32 of the decoded bytes differs from the trailer's.
    ChecksumMismatch,
    /// The length of the decoded bytes (mod 2^32) differs from the trailer's.
    SizeMismatch,
}

} // verus!
