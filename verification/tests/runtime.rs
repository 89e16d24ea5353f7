use mosaic::profile::check_profile;
use mosaic::runtime::{
    check_map2d_shape, check_map_shape, check_module_size, checked_wasm_len, le_bytes, le_words, Limits,
    MAX_MODULE_BYTES,
};

#[test]
fn default_limits() {
    let l = Limits::default();
    assert_eq!(l.fuel, 100_000_000);
    assert_eq!(l.max_memory_bytes, 16 * 1024 * 1024);
}

#[test]
fn wasm_lengths_are_bounded() {
    assert_eq!(checked_wasm_len(10, 4), Ok(40));
    assert_eq!(checked_wasm_len(usize::MAX, 2).unwrap_err(), "buffer length overflows usize");
    assert_eq!(
        checked_wasm_len(1 << 30, 4).unwrap_err(),
        "buffer length 4294967296 exceeds 32-bit wasm addressing"
    );
    assert!(check_module_size(8 * 1024 * 1024).is_ok());
    assert_eq!(
        check_module_size(8 * 1024 * 1024 + 1).unwrap_err(),
        "Facet module is 8388609 bytes, exceeding the 8388608-byte limit"
    );
}

#[test]
fn map_rejects_zero_stride() {
    assert_eq!(check_map_shape(0, 0, 0).unwrap_err(), "stride must be non-zero");
    assert_eq!(check_map2d_shape(0, 1, 1, 0).unwrap_err(), "stride must be non-zero");
}

#[test]
fn map_rejects_mismatched_feature_length() {
    assert_eq!(check_map_shape(5, 2, 3).unwrap_err(), "features length 5 != ncells * stride (6)");
    assert_eq!(check_map_shape(6, 2, 3), Ok((2, 3)));
    assert_eq!(
        check_map2d_shape(5, 3, 2, 1).unwrap_err(),
        "features length 5 != cols * rows * stride (6)"
    );
    assert_eq!(check_map2d_shape(6, 3, 2, 1), Ok((6, 3, 2, 1)));
    assert_eq!(check_map_shape(usize::MAX, usize::MAX, 2).unwrap_err(), "ncells * stride overflows");
}

#[test]
fn oversized_module_is_rejected() {
    let big = vec![0u8; MAX_MODULE_BYTES + 1];
    assert!(check_module_size(big.len()).is_err());
    assert!(check_profile(&big).is_err());
}

#[test]
fn words_cross_memory_little_endian() {
    let words = [0x0403_0201u32, 0xFFFF_FFFF, 0, 1.5f32.to_bits()];
    let bytes = le_bytes(&words);
    assert_eq!(&bytes[..8], &[1, 2, 3, 4, 0xFF, 0xFF, 0xFF, 0xFF]);
    let mut expected = Vec::new();
    for w in words {
        expected.extend_from_slice(&w.to_le_bytes());
    }
    assert_eq!(bytes, expected);
    assert_eq!(le_words(&bytes), words.to_vec());
    assert!(le_words(&[]).is_empty());
}
