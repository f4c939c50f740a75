use vstd::prelude::*;
use crate::error::DecompressionError;
use crate::flate::{crc32_checksum, crc32_of};

verus! {

/// The ten header bytes that this codec writes: magic `1F 8B`, method 8
/// (deflate), no flags, modification time 0, no extra flags, OS unknown.
pub open spec fn gzip_header() -> Seq<u8> {
    seq![0x1Fu8, 0x8Bu8, 8u8, 0u8, 0u8, 0u8, 0u8, 0u8, 0u8, 0xFFu8]
}

/// The four little-endian bytes of `x`.
pub open spec fn le32_bytes(x: u32) -> Seq<u8> {
    seq![(x & 0xFF) as u8, ((x >> 8) & 0xFF) as u8, ((x >> 16) & 0xFF) as u8, (x >> 24) as u8]
}

/// The little-endian 32-bit value held by `s[i..i + 4]`.
pub open spec fn le32_read(s: Seq<u8>, i: int) -> u32 {
    (s[i] as u32) | ((s[i + 1] as u32) << 8) | ((s[i + 2] as u32) << 16) | ((s[i + 3] as u32) << 24)
}

/// The trailer's size field for `n` bytes: `n` mod 2^32.
pub open spec fn size_field(n: nat) -> u32 {
    (n % 0x1_0000_0000) as u32
}

/// A complete gzip member: header, entropy stream, CRC-32 and size.
pub open spec fn framed_bytes(stream: Seq<u8>, crc: u32, size: u32) -> Seq<u8> {
    gzip_header() + stream + le32_bytes(crc) + le32_bytes(size)
}

/// The bytes of `c` that are present among the first four agree with the
/// magic bytes and the method, and the flags byte sets no reserved bit.
pub open spec fn header_prefix_ok(c: Seq<u8>) -> bool {
    &&& (c.len() > 0 ==> c[0] == 0x1F)
    &&& (c.len() > 1 ==> c[1] == 0x8B)
    &&& (c.len() > 2 ==> c[2] == 8)
    &&& (c.len() > 3 ==> c[3] & 0xE0u8 == 0)
}

/// The little-endian 16-bit value held by `s[i..i + 2]`.
pub open spec fn le16_read(s: Seq<u8>, i: int) -> u16 {
    (s[i] as u16) | ((s[i + 1] as u16) << 8)
}

/// The index of the first zero byte of `c` at or after `p`, or `c.len()`
/// where there is none.
pub open spec fn zero_at_or_after(c: Seq<u8>, p: nat) -> nat
    decreases c.len() - p,
{
    if p >= c.len() {
        c.len()
    } else if c[p as int] == 0 {
        p
    } else {
        zero_at_or_after(c, p + 1)
    }
}

/// The position after the extra field (present with flag bit 2) that starts
/// at `p`: two length bytes and that many bytes. `None` where it runs past
/// the end of `c`.
pub open spec fn skip_extra(c: Seq<u8>, p: nat) -> Option<nat> {
    if c[3] & 4u8 == 0 {
        Some(p)
    } else if p + 2 > c.len() || p + 2 + le16_read(c, p as int) > c.len() {
        None
    } else {
        Some(p + 2 + le16_read(c, p as int) as nat)
    }
}

/// The position after a zero-terminated field (a file name with flag bit 3,
/// a comment with flag bit 4) that starts at `p`. `None` where no zero byte
/// ends it.
pub open spec fn skip_text(c: Seq<u8>, p: nat, bit: u8) -> Option<nat> {
    if c[3] & bit == 0 {
        Some(p)
    } else if zero_at_or_after(c, p) >= c.len() {
        None
    } else {
        Some(zero_at_or_after(c, p) + 1)
    }
}

/// The position after the two-byte header CRC (present with flag bit 1)
/// that starts at `p`. The header CRC is skipped, not checked.
pub open spec fn skip_header_crc(c: Seq<u8>, p: nat) -> Option<nat> {
    if c[3] & 2u8 == 0 {
        Some(p)
    } else if p + 2 > c.len() {
        None
    } else {
        Some(p + 2)
    }
}

/// Where the entropy stream starts: after the ten fixed header bytes and
/// the optional fields, in their order. `None` where a field is cut off.
pub open spec fn body_start(c: Seq<u8>) -> Option<nat> {
    match skip_extra(c, 10) {
        None => None,
        Some(p1) => match skip_text(c, p1, 8u8) {
            None => None,
            Some(p2) => match skip_text(c, p2, 16u8) {
                None => None,
                Some(p3) => skip_header_crc(c, p3),
            },
        },
    }
}

/// Splitting a buffer into entropy stream, expected CRC-32 and expected size.
pub open spec fn unframe_result(c: Seq<u8>) -> Result<(Seq<u8>, u32, u32), DecompressionError> {
    if !header_prefix_ok(c) {
        Err(DecompressionError::InvalidHeader)
    } else if c.len() < 10 {
        Err(DecompressionError::UnexpectedEndOfStream)
    } else {
        match body_start(c) {
            None => Err(DecompressionError::UnexpectedEndOfStream),
            Some(h) => if h + 8 > c.len() {
                Err(DecompressionError::UnexpectedEndOfStream)
            } else {
                Ok((c.subrange(h as int, c.len() - 8), le32_read(c, c.len() - 8), le32_read(c, c.len() - 4)))
            },
        }
    }
}

/// Accepting decoded bytes whose CRC-32 is `actual_crc` against a trailer.
pub open spec fn check_result(output: Seq<u8>, actual_crc: u32, expected_crc: u32, expected_size: u32)
    -> Result<Seq<u8>, DecompressionError>
{
    if actual_crc != expected_crc {
        Err(DecompressionError::ChecksumMismatch)
    } else if size_field(output.len()) != expected_size {
        Err(DecompressionError::SizeMismatch)
    } else {
        Ok(output)
    }
}

/// Reading back the bytes of `le32_bytes(x)` gives `x`.
pub proof fn lemma_le32_round_trip(x: u32)
    ensures
        le32_read(le32_bytes(x), 0) == x,
{
    let b = le32_bytes(x);
    assert(b[0] == (x & 0xFF) as u8 && b[1] == ((x >> 8) & 0xFF) as u8 && b[2] == ((x >> 16)
        & 0xFF) as u8 && b[3] == (x >> 24) as u8);
    assert(((((x & 0xFF) as u8) as u32) | (((((x >> 8) & 0xFF) as u8) as u32) << 8) | (((((x
        >> 16) & 0xFF) as u8) as u32) << 16) | ((((x >> 24) as u8) as u32) << 24)) == x)
        by (bit_vector);
}

/// Framing law: splitting a framed stream gives back the stream, the CRC-32
/// and the size that were framed.
pub proof fn lemma_unframe_frame(stream: Seq<u8>, crc: u32, size: u32)
    ensures
        unframe_result(framed_bytes(stream, crc, size)) == Ok::<(Seq<u8>, u32, u32), DecompressionError>((stream, crc, size)),
{
    let c = framed_bytes(stream, crc, size);
    let n = c.len();
    let f = c[3];
    assert(f == 0u8);
    assert(f & 0xE0u8 == 0 && f & 2u8 == 0 && f & 4u8 == 0 && f & 8u8 == 0 && f & 16u8 == 0)
        by (bit_vector)
        requires
            f == 0u8,
    ;
    assert(n == stream.len() + 18);
    assert(c.subrange(10, n - 8) =~= stream);
    assert(c.subrange(n - 8, n - 4) =~= le32_bytes(crc));
    assert(c.subrange(n - 4, n as int) =~= le32_bytes(size));
    lemma_le32_round_trip(crc);
    lemma_le32_round_trip(size);
    assert(le32_read(c, n - 8) == le32_read(c.subrange(n - 8, n - 4), 0));
    assert(le32_read(c, n - 4) == le32_read(c.subrange(n - 4, n as int), 0));
}

/// The result of splitting a gzip buffer.
pub struct Unframed {
    /// The entropy stream between header and trailer.
    pub stream: Vec<u8>,
    /// The CRC-32 that the trailer declares.
    pub expected_crc: u32,
    /// The size (mod 2^32) that the trailer declares.
    pub expected_size: u32,
}

fn push_le32(out: &mut Vec<u8>, x: u32)
    ensures
        final(out)@ == old(out)@ + le32_bytes(x),
{
    out.push((x & 0xFF) as u8);
    out.push(((x >> 8) & 0xFF) as u8);
    out.push(((x >> 16) & 0xFF) as u8);
    out.push((x >> 24) as u8);
    assert(final(out)@ =~= old(out)@ + le32_bytes(x));
}

fn read_le32(c: &[u8], i: usize) -> (r: u32)
    requires
        i + 4 <= c@.len(),
    ensures
        r == le32_read(c@, i as int),
{
    (c[i] as u32) | ((c[i + 1] as u32) << 8) | ((c[i + 2] as u32) << 16) | ((c[i + 3] as u32) << 24)
}

/// Writes a gzip member around `stream` with the given trailer fields.
pub fn frame_with(stream: &[u8], crc: u32, size: u32) -> (r: Vec<u8>)
    requires
        stream@.len() + 18 <= usize::MAX,
    ensures
        r@ == framed_bytes(stream@, crc, size),
{
    let mut out: Vec<u8> = Vec::with_capacity(stream.len() + 18);
    out.push(0x1F);
    out.push(0x8B);
    out.push(8);
    out.push(0);
    out.push(0);
    out.push(0);
    out.push(0);
    out.push(0);
    out.push(0);
    out.push(0xFF);
    assert(out@ =~= gzip_header());
    let mut i: usize = 0;
    while i < stream.len()
        invariant
            i <= stream@.len(),
            out@ =~= gzip_header() + stream@.subrange(0, i as int),
        decreases stream@.len() - i,
    {
        out.push(stream[i]);
        i = i + 1;
    }
    assert(stream@.subrange(0, stream@.len() as int) =~= stream@);
    push_le32(&mut out, crc);
    push_le32(&mut out, size);
    out
}

/// Writes a gzip member around `stream` whose trailer describes `data`, the
/// bytes that the stream encodes.
pub fn frame(stream: &[u8], data: &[u8]) -> (r: Vec<u8>)
    requires
        stream@.len() + 18 <= usize::MAX,
    ensures
        r@ == framed_bytes(stream@, crc32_of(data@), size_field(data@.len())),
{
    let crc = crc32_checksum(data);
    let size = ((data.len() as u64) % 0x1_0000_0000) as u32;
    frame_with(stream, crc, size)
}

fn find_zero(c: &[u8], p: usize) -> (r: usize)
    requires
        p <= c@.len(),
    ensures
        r == zero_at_or_after(c@, p as nat),
{
    let mut i: usize = p;
    while i < c.len() && c[i] != 0
        invariant
            p <= i <= c@.len(),
            zero_at_or_after(c@, i as nat) == zero_at_or_after(c@, p as nat),
        decreases c@.len() - i,
    {
        i = i + 1;
    }
    i
}

proof fn lemma_zero_bounds(c: Seq<u8>, p: nat)
    requires
        p <= c.len(),
    ensures
        p <= zero_at_or_after(c, p) <= c.len(),
    decreases c.len() - p,
{
    if p < c.len() && c[p as int] != 0 {
        lemma_zero_bounds(c, p + 1);
    }
}

/// The entropy stream never starts inside the fixed header, nor past the end.
pub proof fn lemma_body_start_bounds(c: Seq<u8>)
    requires
        c.len() >= 10,
    ensures
        body_start(c) matches Some(h) ==> 10 <= h <= c.len(),
{
    if let Some(p1) = skip_extra(c, 10) {
        lemma_zero_bounds(c, p1);
        if let Some(p2) = skip_text(c, p1, 8u8) {
            lemma_zero_bounds(c, p2);
        }
    }
}

fn skip_text_at(c: &[u8], p: usize, bit: u8) -> (r: Option<usize>)
    requires
        c@.len() >= 10,
        p <= c@.len(),
    ensures
        match r {
            Some(q) => skip_text(c@, p as nat, bit) == Some(q as nat) && q <= c@.len(),
            None => skip_text(c@, p as nat, bit) is None,
        },
{
    if c[3] & bit == 0 {
        return Some(p);
    }
    let z = find_zero(c, p);
    proof {
        lemma_zero_bounds(c@, p as nat);
    }
    if z >= c.len() {
        None
    } else {
        Some(z + 1)
    }
}

/// The offset of the entropy stream in `c`, after the optional header fields.
fn body_offset(c: &[u8]) -> (r: Option<usize>)
    requires
        c@.len() >= 10,
    ensures
        match r {
            Some(q) => body_start(c@) == Some(q as nat) && q <= c@.len(),
            None => body_start(c@) is None,
        },
{
    let n = c.len();
    let mut p: usize = 10;
    if c[3] & 4u8 != 0 {
        if n - p < 2 {
            return None;
        }
        let xlen = (c[p] as u16) | ((c[p + 1] as u16) << 8u16);
        if xlen as usize > n - p - 2 {
            return None;
        }
        p = p + 2 + xlen as usize;
    }
    assert(skip_extra(c@, 10) == Some(p as nat));
    let p2 = match skip_text_at(c, p, 8u8) {
        Some(q) => q,
        None => return None,
    };
    let p3 = match skip_text_at(c, p2, 16u8) {
        Some(q) => q,
        None => return None,
    };
    if c[3] & 2u8 == 0 {
        Some(p3)
    } else if n - p3 < 2 {
        None
    } else {
        Some(p3 + 2)
    }
}

/// Checks the header of `data`, skips its optional fields (extra field, file
/// name, comment, header CRC), and splits off the entropy stream and the
/// trailer's expected CRC-32 and size.
pub fn unframe(data: &[u8]) -> (r: Result<Unframed, DecompressionError>)
    ensures
        match r {
            Ok(u) => unframe_result(data@) == Ok::<(Seq<u8>, u32, u32), DecompressionError>(
                (u.stream@, u.expected_crc, u.expected_size),
            ),
            Err(e) => unframe_result(data@) == Err::<(Seq<u8>, u32, u32), DecompressionError>(e),
        },
{
    let n = data.len();
    if (n > 0 && data[0] != 0x1F) || (n > 1 && data[1] != 0x8B) || (n > 2 && data[2] != 8) || (n
        > 3 && data[3] & 0xE0u8 != 0) {
        return Err(DecompressionError::InvalidHeader);
    }
    if n < 10 {
        return Err(DecompressionError::UnexpectedEndOfStream);
    }
    let start = match body_offset(data) {
        Some(h) => h,
        None => return Err(DecompressionError::UnexpectedEndOfStream),
    };
    if start > n - 8 {
        return Err(DecompressionError::UnexpectedEndOfStream);
    }
    let end = n - 8;
    let mut stream: Vec<u8> = Vec::with_capacity(end - start);
    let mut i: usize = start;
    while i < end
        invariant
            start <= i <= end,
            end == n - 8,
            n == data@.len(),
            stream@ =~= data@.subrange(start as int, i as int),
        decreases end - i,
    {
        stream.push(data[i]);
        i = i + 1;
    }
    let expected_crc = read_le32(data, end);
    let expected_size = read_le32(data, n - 4);
    Ok(Unframed { stream, expected_crc, expected_size })
}

/// Accepts `output`, whose CRC-32 is `actual_crc`, only if it agrees with the
/// trailer's expected CRC-32 and size.
pub fn check_output(output: Vec<u8>, actual_crc: u32, expected_crc: u32, expected_size: u32) -> (r:
    Result<Vec<u8>, DecompressionError>)
    ensures
        match r {
            Ok(v) => check_result(output@, actual_crc, expected_crc, expected_size) == Ok::<
                Seq<u8>,
                DecompressionError,
            >(v@),
            Err(e) => check_result(output@, actual_crc, expected_crc, expected_size) == Err::<
                Seq<u8>,
                DecompressionError,
            >(e),
        },
{
    if actual_crc != expected_crc {
        return Err(DecompressionError::ChecksumMismatch);
    }
    let size = ((output.len() as u64) % 0x1_0000_0000) as u32;
    if size != expected_size {
        return Err(DecompressionError::SizeMismatch);
    }
    Ok(output)
}

} // verus!
