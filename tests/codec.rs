use gzip_codec::{
    check_output, classify_fault, compress, decompress, frame, frame_with, unframe, DecompressionError,
};

fn le32(b: &[u8]) -> u32 {
    u32::from_le_bytes([b[0], b[1], b[2], b[3]])
}

fn pseudo_random(n: usize, seed: u64) -> Vec<u8> {
    let mut x = seed;
    let mut v = Vec::with_capacity(n);
    for _ in 0..n {
        x = x.wrapping_mul(6364136223846793005).wrapping_add(1442695040888963407);
        v.push((x >> 33) as u8);
    }
    v
}

fn round_trip(data: &[u8]) {
    let c = compress(data).unwrap();
    assert_eq!(decompress(&c).unwrap(), data.to_vec());
}

#[test]
fn empty_input_has_exact_archive() {
    let c = compress(&[]).unwrap();
    assert_eq!(&c[0..8], &[0x1F, 0x8B, 0x08, 0x00, 0x00, 0x00, 0x00, 0x00]);
    assert_eq!(c[9], 0xFF);
    assert_eq!(&c[10..12], &[0x03, 0x00]);
    assert_eq!(&c[12..], &[0, 0, 0, 0, 0, 0, 0, 0]);
    assert_eq!(c.len(), 20);
    assert_eq!(decompress(&c).unwrap(), Vec::<u8>::new());
}

#[test]
fn known_empty_archive_decompresses() {
    let c = [
        0x1F, 0x8B, 0x08, 0x00, 0x00, 0x00, 0x00, 0x00, 0x00, 0xFF, 0x03, 0x00, 0, 0, 0, 0, 0,
        0, 0, 0,
    ];
    assert_eq!(decompress(&c).unwrap(), Vec::<u8>::new());
}

#[test]
fn hundred_repeats_shrink_and_round_trip() {
    let data = vec![0x41u8; 100];
    let c = compress(&data).unwrap();
    assert!(c.len() < 100 + 18);
    assert_eq!(decompress(&c).unwrap(), data);
}

#[test]
fn header_bytes() {
    for data in [&b""[..], &b"a"[..], &b"hello, world"[..]] {
        let c = compress(data).unwrap();
        assert_eq!(&c[0..3], &[0x1F, 0x8B, 0x08]);
    }
}

#[test]
fn trailer_holds_crc_and_size() {
    let c = compress(b"123456789").unwrap();
    let n = c.len();
    assert_eq!(le32(&c[n - 8..n - 4]), 0xCBF4_3926);
    assert_eq!(le32(&c[n - 4..]), 9);
}

#[test]
fn stream_is_not_the_input() {
    let data = vec![b'z'; 1000];
    let c = compress(&data).unwrap();
    assert!(c.len() < 100);
    let parts = unframe(&c).unwrap();
    assert_ne!(parts.stream, data);
}

#[test]
fn round_trip_small_inputs() {
    round_trip(b"");
    round_trip(b"x");
    round_trip(b"abcabcabcabcabcabcabc");
    round_trip(&(0..=255u8).collect::<Vec<u8>>());
}

#[test]
fn round_trip_large_repetitive() {
    let data: Vec<u8> = (0..(1usize << 20)).map(|i| (i % 7) as u8).collect();
    let c = compress(&data).unwrap();
    assert!(c.len() < data.len() / 10);
    assert_eq!(decompress(&c).unwrap(), data);
}

#[test]
fn round_trip_large_random() {
    let data = pseudo_random(1 << 20, 42);
    round_trip(&data);
}

#[test]
fn decompress_is_repeatable() {
    let data = pseudo_random(5000, 7);
    let c = compress(&data).unwrap();
    let a = decompress(&c).unwrap();
    let b = decompress(&c).unwrap();
    assert_eq!(a, b);
    assert_eq!(compress(&data).unwrap(), c);
}

#[test]
fn bit_flips_never_corrupt_silently() {
    let data = b"the quick brown fox jumps over the lazy dog, the quick brown fox".to_vec();
    let c = compress(&data).unwrap();
    for i in 10..c.len() - 8 {
        for bit in 0..8 {
            let mut d = c.clone();
            d[i] ^= 1 << bit;
            match decompress(&d) {
                Ok(v) => assert_eq!(v, data),
                Err(e) => assert!(matches!(
                    e,
                    DecompressionError::CorruptStream
                        | DecompressionError::InvalidBlockType
                        | DecompressionError::InvalidStoredBlock
                        | DecompressionError::UnexpectedEndOfStream
                        | DecompressionError::ChecksumMismatch
                        | DecompressionError::SizeMismatch
                )),
            }
        }
    }
}

#[test]
fn truncation_is_rejected() {
    let data = b"truncate me, truncate me, truncate me please".to_vec();
    let c = compress(&data).unwrap();
    for k in 0..c.len() {
        let e = decompress(&c[..k]).unwrap_err();
        assert!(matches!(
            e,
            DecompressionError::UnexpectedEndOfStream
                | DecompressionError::InvalidHeader
                | DecompressionError::ChecksumMismatch
                | DecompressionError::SizeMismatch
        ));
        if k < 18 {
            assert_eq!(e, DecompressionError::UnexpectedEndOfStream);
        }
    }
}

#[test]
fn invalid_header_is_rejected() {
    let mut c = compress(b"abc").unwrap();
    c[0] = 0x1E;
    assert_eq!(decompress(&c), Err(DecompressionError::InvalidHeader));
    let mut c = compress(b"abc").unwrap();
    c[2] = 9;
    assert_eq!(decompress(&c), Err(DecompressionError::InvalidHeader));
    let mut c = compress(b"abc").unwrap();
    c[3] = 0x20;
    assert_eq!(decompress(&c), Err(DecompressionError::InvalidHeader));
    assert_eq!(decompress(b"hello"), Err(DecompressionError::InvalidHeader));
}

#[test]
fn short_input_is_an_early_end() {
    assert_eq!(decompress(&[]), Err(DecompressionError::UnexpectedEndOfStream));
    assert_eq!(decompress(&[0x1F, 0x8B]), Err(DecompressionError::UnexpectedEndOfStream));
    let c = [0x1F, 0x8B, 0x08, 0x00, 0, 0, 0, 0, 0, 0xFF, 0x03, 0, 0, 0, 0, 0, 0];
    assert_eq!(decompress(&c), Err(DecompressionError::UnexpectedEndOfStream));
}

#[test]
fn reserved_block_type_is_reported() {
    let c = frame_with(&[0x07, 0x00], 0, 0);
    assert_eq!(decompress(&c), Err(DecompressionError::InvalidBlockType));
}

#[test]
fn reserved_block_after_stored_block_is_reported() {
    let c = frame_with(&[0x00, 0x01, 0x00, 0xFE, 0xFF, b'a', 0x07], 0, 0);
    assert_eq!(decompress(&c), Err(DecompressionError::InvalidBlockType));
}

#[test]
fn stored_length_mismatch_is_reported() {
    let c = frame_with(&[0x01, 0x02, 0x00, 0xFE, 0xFF, b'a', b'b'], 0, 0);
    assert_eq!(decompress(&c), Err(DecompressionError::InvalidStoredBlock));
}

#[test]
fn bad_huffman_block_is_corrupt() {
    // A dynamic block whose code-length code gives every length zero.
    let c = frame_with(&[0x05, 0x00, 0x00, 0x00, 0x00, 0x00, 0x00], 0, 0);
    assert_eq!(decompress(&c), Err(DecompressionError::CorruptStream));
}

#[test]
fn valid_stored_block_decodes() {
    let crc = {
        let c = compress(b"ab").unwrap();
        let n = c.len();
        le32(&c[n - 8..n - 4])
    };
    let c = frame_with(&[0x01, 0x02, 0x00, 0xFD, 0xFF, b'a', b'b'], crc, 2);
    assert_eq!(decompress(&c).unwrap(), b"ab".to_vec());
}

#[test]
fn classify_fault_walks_stored_blocks() {
    assert_eq!(classify_fault(&[0x07]), DecompressionError::InvalidBlockType);
    assert_eq!(classify_fault(&[0x06]), DecompressionError::InvalidBlockType);
    assert_eq!(classify_fault(&[0x00, 0x01, 0x00, 0x00, 0x00]), DecompressionError::InvalidStoredBlock);
    assert_eq!(
        classify_fault(&[0x00, 0x00, 0x00, 0xFF, 0xFF, 0x06]),
        DecompressionError::InvalidBlockType
    );
    assert_eq!(classify_fault(&[0x05, 0x00]), DecompressionError::CorruptStream);
    assert_eq!(classify_fault(&[0x01, 0x00, 0x00, 0xFF, 0xFF, 0x06]), DecompressionError::CorruptStream);
    assert_eq!(classify_fault(&[]), DecompressionError::CorruptStream);
    assert_eq!(classify_fault(&[0x00, 0x01]), DecompressionError::CorruptStream);
}

#[test]
fn empty_stream_is_an_early_end() {
    let c = frame_with(&[], 0, 0);
    assert_eq!(decompress(&c), Err(DecompressionError::UnexpectedEndOfStream));
}

#[test]
fn checksum_mismatch_is_reported() {
    let mut c = compress(b"checksum").unwrap();
    let n = c.len();
    c[n - 8] ^= 0x01;
    assert_eq!(decompress(&c), Err(DecompressionError::ChecksumMismatch));
}

#[test]
fn size_mismatch_is_reported() {
    let mut c = compress(b"size").unwrap();
    let n = c.len();
    c[n - 4] = 5;
    assert_eq!(decompress(&c), Err(DecompressionError::SizeMismatch));
}

#[test]
fn frame_with_lays_out_header_stream_trailer() {
    let c = frame_with(&[0xAA, 0xBB], 0x1234_5678, 0x0102_0304);
    assert_eq!(
        c,
        vec![
            0x1F, 0x8B, 0x08, 0x00, 0, 0, 0, 0, 0, 0xFF, 0xAA, 0xBB, 0x78, 0x56, 0x34, 0x12,
            0x04, 0x03, 0x02, 0x01
        ]
    );
}

#[test]
fn frame_computes_trailer_from_original() {
    let c = frame(&[0x01, 0x02], b"123456789");
    assert_eq!(&c[10..12], &[0x01, 0x02]);
    assert_eq!(le32(&c[12..16]), 0xCBF4_3926);
    assert_eq!(le32(&c[16..20]), 9);
}

#[test]
fn unframe_splits_fields() {
    let c = frame_with(&[9, 8, 7], 0xDEAD_BEEF, 42);
    let u = unframe(&c).unwrap();
    assert_eq!(u.stream, vec![9, 8, 7]);
    assert_eq!(u.expected_crc, 0xDEAD_BEEF);
    assert_eq!(u.expected_size, 42);
}

#[test]
fn check_output_decides_each_case() {
    assert_eq!(check_output(vec![1, 2], 5, 5, 2), Ok(vec![1, 2]));
    assert_eq!(check_output(vec![1, 2], 5, 6, 2), Err(DecompressionError::ChecksumMismatch));
    assert_eq!(check_output(vec![1, 2], 5, 5, 3), Err(DecompressionError::SizeMismatch));
}

fn with_fields(flags: u8, fields: &[u8], data: &[u8]) -> Vec<u8> {
    let c = compress(data).unwrap();
    let mut d = c[..10].to_vec();
    d[3] = flags;
    d.extend_from_slice(fields);
    d.extend_from_slice(&c[10..]);
    d
}

#[test]
fn file_name_field_is_skipped() {
    let d = with_fields(0x08, b"notes.txt\0", b"named member");
    assert_eq!(decompress(&d).unwrap(), b"named member".to_vec());
}

#[test]
fn all_optional_fields_are_skipped() {
    let mut fields = vec![0x03, 0x00, b'x', b'y', b'z'];
    fields.extend_from_slice(b"name\0comment\0");
    fields.extend_from_slice(&[0xAB, 0xCD]);
    let d = with_fields(0x1E, &fields, b"every field");
    assert_eq!(decompress(&d).unwrap(), b"every field".to_vec());
    let u = unframe(&d).unwrap();
    assert_eq!(u.stream, unframe(&compress(b"every field").unwrap()).unwrap().stream);
}

#[test]
fn unterminated_file_name_is_an_early_end() {
    let d = [0x1F, 0x8B, 0x08, 0x08, 0, 0, 0, 0, 0, 0xFF, b'a', b'b', b'c'];
    assert_eq!(decompress(&d), Err(DecompressionError::UnexpectedEndOfStream));
}

#[test]
fn oversized_extra_field_is_an_early_end() {
    let d = with_fields(0x04, &[0xFF, 0x00, 1, 2, 3], b"short");
    assert_eq!(decompress(&d), Err(DecompressionError::UnexpectedEndOfStream));
}

#[test]
fn compress_always_succeeds() {
    for n in [0usize, 1, 2, 100, 65536, 70000] {
        assert!(compress(&pseudo_random(n, n as u64)).is_ok());
        assert!(compress(&vec![0u8; n]).is_ok());
    }
}
