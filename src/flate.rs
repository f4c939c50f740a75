use vstd::prelude::*;
use crate::error::{CompressionError, DecompressionError};

verus! {

/// The raw DEFLATE stream that flate2's encoder, at its default level,
/// produces for the given bytes.
pub uninterp spec fn deflate_of(data: Seq<u8>) -> Seq<u8>;

/// What flate2's raw DEFLATE decoder makes of the given stream: the decoded
/// bytes, or the kind of failure.
pub uninterp spec fn inflate_of(stream: Seq<u8>) -> Result<Seq<u8>, DecompressionError>;

/// The CRC-32 (reflected polynomial 0xEDB88320) of the given bytes.
pub uninterp spec fn crc32_of(data: Seq<u8>) -> u32;

/// Relies on flate2::write::DeflateEncoder at `Compression::default()`: the
/// encoded stream depends on the input alone, and DEFLATE is lossless, so the
/// decoder gives the input back. Writing into a `Vec` has no error path:
/// the writer fails only where miniz_oxide's compressor does, which a single
/// `write_all` followed by `finish` never triggers.
#[verifier::external_body]
pub(crate) fn deflate_stream(data: &[u8]) -> (r: Result<Vec<u8>, CompressionError>)
    ensures
        r is Ok,
        match r {
            Ok(s) => s@ == deflate_of(data@) && inflate_of(s@) == Ok::<Seq<u8>, DecompressionError>(data@),
            Err(e) => e == CompressionError::ResourceExhausted,
        },
{
    let mut enc = flate2::write::DeflateEncoder::new(Vec::new(), flate2::Compression::default());
    match std::io::Write::write_all(&mut enc, data).and_then(|_| enc.finish()) {
        Ok(v) => Ok(v),
        Err(_) => Err(CompressionError::ResourceExhausted),
    }
}

/// Relies on flate2::read::DeflateDecoder and `read_to_end`: the decoder
/// reports a stream that ends early as `UnexpectedEof` and every other
/// rejection as `InvalidInput`.
#[verifier::external_body]
pub(crate) fn inflate_stream(stream: &[u8]) -> (r: Result<Vec<u8>, DecompressionError>)
    ensures
        match r {
            Ok(v) => inflate_of(stream@) == Ok::<Seq<u8>, DecompressionError>(v@),
            Err(e) => inflate_of(stream@) == Err::<Seq<u8>, DecompressionError>(e) && (e
                == DecompressionError::UnexpectedEndOfStream || e
                == DecompressionError::CorruptStream),
        },
{
    let mut out = Vec::new();
    let mut dec = flate2::read::DeflateDecoder::new(stream);
    match std::io::Read::read_to_end(&mut dec, &mut out) {
        Ok(_) => Ok(out),
        Err(e) if e.kind() == std::io::ErrorKind::UnexpectedEof => {
            Err(DecompressionError::UnexpectedEndOfStream)
        },
        Err(_) => Err(DecompressionError::CorruptStream),
    }
}

/// Relies on flate2::Crc (`new`, `update`, `sum`): the CRC-32 of the bytes
/// fed in, which is 0 for no bytes.
#[verifier::external_body]
pub(crate) fn crc32_checksum(data: &[u8]) -> (r: u32)
    ensures
        r == crc32_of(data@),
        data@.len() == 0 ==> r == 0,
{
    let mut crc = flate2::Crc::new();
    crc.update(data);
    crc.sum()
}

} // verus!
