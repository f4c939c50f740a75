//! A gzip codec: a single-member gzip container around a DEFLATE stream,
//! with the container's header, trailer and integrity checks verified.

mod error;
mod blocks;
mod flate;
mod format;
mod codec;

pub use crate::error::{CompressionError, DecompressionError};
pub use crate::blocks::{classify_fault, stored_len, stored_nlen, stream_fault};
pub use crate::flate::{crc32_of, deflate_of, inflate_of};
pub use crate::format::{
    check_output, check_result, frame, framed_bytes, frame_with, body_start, gzip_header, header_prefix_ok, le16_read, lemma_body_start_bounds, skip_extra,
    skip_header_crc, skip_text, zero_at_or_after,
    le32_bytes, le32_read, lemma_le32_round_trip, lemma_unframe_frame, size_field, unframe,
    unframe_result, Unframed,
};
pub use crate::codec::{
    compress, compressed_from, decompress, decompress_result, lemma_accepted_output_matches_trailer,
    lemma_corruption_detected, lemma_header, lemma_repeatable, lemma_round_trip,
    lemma_short_prefix_rejected, lemma_trailer,
};
