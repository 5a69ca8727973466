use aetheris_client::assets::{parse_aeb_header, parse_asset, AebError, AebHeader, AssetHandle};

const AEB_MAGIC: [u8; 4] = *b"AEB\x01";

#[test]
fn test_aeb_validation_magic_mismatch() {
    let garbage = b"NOT_AEB_DATA_LONG_ENOUGH";
    let result = parse_asset(garbage);
    assert!(result.is_err());

    let err = result.unwrap_err();
    assert!(err.message().contains("magic"));
}

#[test]
fn test_aeb_validation_too_small() {
    let tiny = b"AEB\x01";
    let result = parse_asset(tiny);
    assert!(result.is_err());

    let err = result.unwrap_err();
    assert!(err.message().contains("small"));
}

#[test]
fn test_aeb_parsing_valid() {
    let compressed = vec![
        40, 181, 47, 253, 4, 0, 121, 0, 0, 146, 146, 147, 147, 0, 0, 0, 0, 0, 0, 0, 0, 0, 0, 0, 0,
        147, 0, 0, 0, 0, 0, 0, 128, 63, 0, 0, 0, 0, 145, 0, 24, 73, 107,
    ];

    let mut data = Vec::from(AEB_MAGIC);
    data.extend_from_slice(&0u32.to_le_bytes());
    data.extend_from_slice(&45u64.to_le_bytes());
    data.extend_from_slice(&compressed);

    let result = parse_asset(&data);
    // Accepted if it decompressed something; a corrupt frame must be reported
    // as a decompression failure.
    if let Err(e) = result {
        let err = e.message();
        assert!(err.contains("parse mesh") || err.contains("Decompression"));
    }
}

#[test]
fn test_aeb_fuzz_garbage() {
    // A fixed pseudo-random sequence stands in for random input.
    let mut state: u64 = 0x9e37_79b9_7f4a_7c15;
    let mut next = move || {
        state ^= state << 13;
        state ^= state >> 7;
        state ^= state << 17;
        state
    };
    for _ in 0..50 {
        let len = (next() % 500) as usize;
        let garbage: Vec<u8> = (0..len).map(|_| next() as u8).collect();
        let _ = parse_asset(&garbage);
    }
}

#[test]
fn test_aeb_corrupted_header() {
    let mut data = Vec::from(AEB_MAGIC);
    data.extend_from_slice(&0u32.to_le_bytes());
    data.extend_from_slice(&100u64.to_le_bytes());
    data.extend_from_slice(&[0, 1, 2, 3, 4, 5]); // Invalid Zstd data

    let result = parse_asset(&data);
    assert!(result.is_err());
    let err = result.unwrap_err().message();
    assert!(err.contains("Failed") || err.contains("Decompression"));
}

#[test]
fn header_fields_are_little_endian() {
    let mut data = Vec::from(AEB_MAGIC);
    data.extend_from_slice(&0u32.to_le_bytes());
    data.extend_from_slice(&0x0102_0304_0506_0708u64.to_le_bytes());
    assert_eq!(
        parse_aeb_header(&data),
        Ok(AebHeader { version: 0, uncompressed_size: 0x0102_0304_0506_0708 })
    );
}

#[test]
fn other_versions_are_refused() {
    let mut data = Vec::from(AEB_MAGIC);
    data.extend_from_slice(&3u32.to_le_bytes());
    data.extend_from_slice(&0u64.to_le_bytes());
    assert_eq!(parse_aeb_header(&data), Err(AebError::UnsupportedVersion(3)));
    assert_eq!(parse_asset(&data).unwrap_err(), AebError::UnsupportedVersion(3));
}

#[test]
fn a_valid_frame_is_decompressed() {
    // An uncompressed ("raw") Zstandard block holding "hello".
    let frame: Vec<u8> = vec![
        0x28, 0xb5, 0x2f, 0xfd, // magic
        0x20, 0x05, // frame header: single segment, content size 5
        0x29, 0x00, 0x00, // last raw block of 5 bytes
        b'h', b'e', b'l', b'l', b'o',
    ];
    let mut data = Vec::from(AEB_MAGIC);
    data.extend_from_slice(&0u32.to_le_bytes());
    data.extend_from_slice(&5u64.to_le_bytes());
    data.extend_from_slice(&frame);
    let p = parse_asset(&data).expect("valid frame");
    assert_eq!(p.data, b"hello".to_vec());
    assert_eq!(p.uncompressed_size, 5);
    assert!(!p.size_mismatch);

    let mut wrong = Vec::from(AEB_MAGIC);
    wrong.extend_from_slice(&0u32.to_le_bytes());
    wrong.extend_from_slice(&9u64.to_le_bytes());
    wrong.extend_from_slice(&frame);
    assert!(parse_asset(&wrong).unwrap().size_mismatch);
}

#[test]
fn asset_handle_codes() {
    assert_eq!(AssetHandle::Interceptor.code(), 1);
    assert_eq!(AssetHandle::Projectile.code(), 4);
    assert_eq!(AssetHandle::from_code(2), Some(AssetHandle::Dreadnought));
    assert_eq!(AssetHandle::from_code(3), Some(AssetHandle::Asteroid));
    assert_eq!(AssetHandle::from_code(0), None);
    assert_eq!(AssetHandle::from_code(5), None);
}

#[test]
fn error_messages() {
    assert_eq!(AebError::TooSmall.message(), "Asset file too small");
    assert_eq!(AebError::InvalidMagic.message(), "Invalid AEB magic number");
    assert_eq!(AebError::UnsupportedVersion(2).message(), "Unsupported AEB version");
    assert_eq!(AebError::DecoderInit.message(), "Failed to create decoder");
    assert_eq!(AebError::Decompression.message(), "Decompression failed");
}

#[test]
fn frames_without_zstd_magic_fail_to_start() {
    let mut data = Vec::from(AEB_MAGIC);
    data.extend_from_slice(&0u32.to_le_bytes());
    data.extend_from_slice(&0u64.to_le_bytes());
    data.extend_from_slice(&[1, 2, 3, 4, 5, 6, 7, 8]);
    assert_eq!(parse_asset(&data).unwrap_err(), AebError::DecoderInit);
}
