use vstd::prelude::*;
use crate::blocks::{classify_fault, stream_fault};
use crate::error::{CompressionError, DecompressionError};
use crate::flate::{crc32_checksum, crc32_of, deflate_of, deflate_stream, inflate_of, inflate_stream};
use crate::format::{
    check_output, check_result, frame, framed_bytes, le32_read,
    lemma_body_start_bounds, lemma_unframe_frame, size_field, unframe, unframe_result,
};

verus! {

/// `c` is the archive that `compress` makes of `data`: the gzip member around
/// the DEFLATE stream of `data`, a stream that decodes back to `data`.
pub open spec fn compressed_from(data: Seq<u8>, c: Seq<u8>) -> bool {
    &&& c == framed_bytes(deflate_of(data), crc32_of(data), size_field(data.len()))
    &&& inflate_of(deflate_of(data)) == Ok::<Seq<u8>, DecompressionError>(data)
}

/// What `decompress` returns for `c`: the container is split, the stream
/// decoded, and the decoded bytes checked against the trailer.
pub open spec fn decompress_result(c: Seq<u8>) -> Result<Seq<u8>, DecompressionError> {
    match unframe_result(c) {
        Err(e) => Err(e),
        Ok((stream, crc, size)) => match inflate_of(stream) {
            Err(DecompressionError::CorruptStream) => Err(stream_fault(stream, 0)),
            Err(e) => Err(e),
            Ok(out) => check_result(out, crc32_of(out), crc, size),
        },
    }
}

/// Compresses `data` into a single gzip member. It fails only where the
/// archive would not fit in memory.
pub fn compress(data: &[u8]) -> (r: Result<Vec<u8>, CompressionError>)
    ensures
        deflate_of(data@).len() + 18 <= usize::MAX ==> r is Ok,
        match r {
            Ok(c) => compressed_from(data@, c@),
            Err(e) => e == CompressionError::ResourceExhausted,
        },
{
    let stream = match deflate_stream(data) {
        Ok(s) => s,
        Err(e) => return Err(e),
    };
    if stream.len() > usize::MAX - 18 {
        return Err(CompressionError::ResourceExhausted);
    }
    Ok(frame(stream.as_slice(), data))
}

/// Decompresses a single gzip member, returning the decoded bytes only when
/// they match the trailer's CRC-32 and size.
pub fn decompress(data: &[u8]) -> (r: Result<Vec<u8>, DecompressionError>)
    ensures
        match r {
            Ok(v) => decompress_result(data@) == Ok::<Seq<u8>, DecompressionError>(v@),
            Err(e) => decompress_result(data@) == Err::<Seq<u8>, DecompressionError>(e),
        },
{
    let parts = match unframe(data) {
        Ok(u) => u,
        Err(e) => return Err(e),
    };
    let output = match inflate_stream(parts.stream.as_slice()) {
        Ok(v) => v,
        Err(DecompressionError::CorruptStream) => {
            return Err(classify_fault(parts.stream.as_slice()));
        },
        Err(e) => return Err(e),
    };
    let actual_crc = crc32_checksum(output.as_slice());
    check_output(output, actual_crc, parts.expected_crc, parts.expected_size)
}

/// Round trip: decompressing what `compress` made of `data` gives `data`.
pub proof fn lemma_round_trip(data: Seq<u8>, c: Seq<u8>)
    requires
        compressed_from(data, c),
    ensures
        decompress_result(c) == Ok::<Seq<u8>, DecompressionError>(data),
{
    lemma_unframe_frame(deflate_of(data), crc32_of(data), size_field(data.len()));
}

/// Header: every archive from `compress` starts with `1F 8B 08`.
pub proof fn lemma_header(data: Seq<u8>, c: Seq<u8>)
    requires
        compressed_from(data, c),
    ensures
        c.len() >= 18,
        c[0] == 0x1F,
        c[1] == 0x8B,
        c[2] == 8,
{
}

/// Trailer: the last eight bytes of an archive from `compress` hold the
/// CRC-32 of `data` and its length mod 2^32, little-endian.
pub proof fn lemma_trailer(data: Seq<u8>, c: Seq<u8>)
    requires
        compressed_from(data, c),
    ensures
        c.len() >= 18,
        le32_read(c, c.len() - 8) == crc32_of(data),
        le32_read(c, c.len() - 4) == size_field(data.len()),
{
    lemma_unframe_frame(deflate_of(data), crc32_of(data), size_field(data.len()));
}

/// Integrity: whatever `decompress` accepts has the CRC-32 and the size that
/// the last eight bytes of its input declare.
pub proof fn lemma_accepted_output_matches_trailer(c: Seq<u8>)
    ensures
        decompress_result(c) is Ok ==> {
            &&& c.len() >= 18
            &&& crc32_of(decompress_result(c)->Ok_0) == le32_read(c, c.len() - 8)
            &&& size_field(decompress_result(c)->Ok_0.len()) == le32_read(c, c.len() - 4)
        },
{
    if c.len() >= 10 {
        lemma_body_start_bounds(c);
    }
}

/// Corruption: an archive from `compress` changed anywhere between header and
/// trailer is either rejected, or decodes to bytes with the CRC-32 and the
/// size of `data`.
pub proof fn lemma_corruption_detected(data: Seq<u8>, c: Seq<u8>, d: Seq<u8>)
    requires
        compressed_from(data, c),
        d.len() == c.len(),
        forall|i: int| 0 <= i < d.len() && (i < 10 || i >= d.len() - 8) ==> d[i] == c[i],
    ensures
        decompress_result(d) is Ok ==> {
            &&& crc32_of(decompress_result(d)->Ok_0) == crc32_of(data)
            &&& size_field(decompress_result(d)->Ok_0.len()) == size_field(data.len())
        },
{
    lemma_trailer(data, c);
    lemma_accepted_output_matches_trailer(d);
    let n = c.len() as int;
    assert(d[n - 8] == c[n - 8] && d[n - 7] == c[n - 7] && d[n - 6] == c[n - 6] && d[n - 5]
        == c[n - 5]);
    assert(d[n - 4] == c[n - 4] && d[n - 3] == c[n - 3] && d[n - 2] == c[n - 2] && d[n - 1]
        == c[n - 1]);
}

/// Truncation: a prefix of an archive from `compress` that is too short to
/// hold header and trailer is rejected as an early end of the stream.
pub proof fn lemma_short_prefix_rejected(data: Seq<u8>, c: Seq<u8>, k: int)
    requires
        compressed_from(data, c),
        0 <= k < 18,
    ensures
        decompress_result(c.subrange(0, k)) == Err::<Seq<u8>, DecompressionError>(
            DecompressionError::UnexpectedEndOfStream,
        ),
{
    lemma_header(data, c);
    let p = c.subrange(0, k);
    if k > 3 {
        let f = p[3];
        assert(f == c[3]);
        assert(f & 0xE0u8 == 0) by (bit_vector)
            requires
                f == 0u8,
        ;
    }
    if k >= 10 {
        lemma_body_start_bounds(p);
    }
}

/// Determinism: two archives that `compress` makes of the same bytes are
/// equal, and each decompresses to those bytes.
pub proof fn lemma_repeatable(data: Seq<u8>, c1: Seq<u8>, c2: Seq<u8>)
    requires
        compressed_from(data, c1),
        compressed_from(data, c2),
    ensures
        c1 == c2,
        decompress_result(c1) == decompress_result(c2),
        decompress_result(c1) == Ok::<Seq<u8>, DecompressionError>(data),
{
    lemma_round_trip(data, c1);
}

} // verus!
