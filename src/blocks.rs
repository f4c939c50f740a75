use vstd::prelude::*;
use crate::error::DecompressionError;

verus! {

/// The LEN field of a stored block whose header byte is at `p`.
pub open spec fn stored_len(s: Seq<u8>, p: int) -> u16 {
    (s[p + 1] as u16) | ((s[p + 2] as u16) << 8)
}

/// The NLEN field (one's complement of LEN) of a stored block whose header
/// byte is at `p`.
pub open spec fn stored_nlen(s: Seq<u8>, p: int) -> u16 {
    (s[p + 3] as u16) | ((s[p + 4] as u16) << 8)
}

/// The cause of a rejected DEFLATE stream, found by walking its blocks from
/// the byte-aligned block header at `p`. Stored blocks are skipped whole; a
/// reserved block type or a stored length that disagrees with its complement
/// is named. Past a Huffman-coded block the walk cannot go: the cause lies in
/// its codes or back-references.
pub open spec fn stream_fault(s: Seq<u8>, p: nat) -> DecompressionError
    decreases s.len() - p,
{
    if p >= s.len() {
        DecompressionError::CorruptStream
    } else if (s[p as int] >> 1u8) & 3u8 == 3 {
        DecompressionError::InvalidBlockType
    } else if (s[p as int] >> 1u8) & 3u8 != 0 {
        DecompressionError::CorruptStream
    } else if p + 5 > s.len() {
        DecompressionError::CorruptStream
    } else if stored_len(s, p as int) != !stored_nlen(s, p as int) {
        DecompressionError::InvalidStoredBlock
    } else if s[p as int] & 1u8 == 1 || p + 5 + stored_len(s, p as int) > s.len() {
        DecompressionError::CorruptStream
    } else {
        stream_fault(s, p + 5 + stored_len(s, p as int) as nat)
    }
}

/// Names the cause for which the DEFLATE decoder rejected `stream`.
pub fn classify_fault(stream: &[u8]) -> (r: DecompressionError)
    ensures
        r == stream_fault(stream@, 0),
{
    let n = stream.len();
    let mut p: usize = 0;
    while p < n
        invariant
            n == stream@.len(),
            p <= n,
            stream_fault(stream@, p as nat) == stream_fault(stream@, 0),
        decreases n - p,
    {
        let h = stream[p];
        let btype = (h >> 1u8) & 3u8;
        if btype == 3 {
            return DecompressionError::InvalidBlockType;
        }
        if btype != 0 || n - p < 5 {
            return DecompressionError::CorruptStream;
        }
        let len = (stream[p + 1] as u16) | ((stream[p + 2] as u16) << 8u16);
        let nlen = (stream[p + 3] as u16) | ((stream[p + 4] as u16) << 8u16);
        if len != !nlen {
            return DecompressionError::InvalidStoredBlock;
        }
        if h & 1u8 == 1 || (len as usize) > n - p - 5 {
            return DecompressionError::CorruptStream;
        }
        p = p + 5 + len as usize;
    }
    DecompressionError::CorruptStream
}

} // verus!
