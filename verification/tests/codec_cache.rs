use wadup::load::{build_cache_file, read_compiled, read_u32_le, read_u64_le, write_u64_le};
use wadup::types::HostError;

#[test]
fn read_u64_le_decodes() {
    let bytes = [0x78u8, 0x56, 0x34, 0x12, 0, 0, 0, 0];
    assert_eq!(read_u64_le(&bytes), 0x1234_5678);
    let max = [0xffu8; 8];
    assert_eq!(read_u64_le(&max), u64::MAX);
}

#[test]
fn read_u64_le_zero_pads_short_input() {
    // a short read behaves as if the missing bytes were zero
    assert_eq!(read_u64_le(&[0x01u8, 0x02]), 0x0201);
    assert_eq!(read_u64_le(&[]), 0);
}

#[test]
fn read_u32_le_decodes() {
    assert_eq!(read_u32_le(&[0xddu8, 0xcc, 0xbb, 0xaa]), 0xaabb_ccdd);
    assert_eq!(read_u32_le(&[0x05u8]), 5);
}

#[test]
fn write_u64_le_encodes() {
    let mut out = Vec::new();
    write_u64_le(&mut out, 0x1122_3344_5566_7788);
    assert_eq!(out, vec![0x88, 0x77, 0x66, 0x55, 0x44, 0x33, 0x22, 0x11]);
}

#[test]
fn write_then_read_u64_round_trips() {
    for v in [0u64, 1, 0xdead_beef, u64::MAX] {
        let mut out = Vec::new();
        write_u64_le(&mut out, v);
        assert_eq!(read_u64_le(&out), v);
    }
}

#[test]
fn cache_file_layout() {
    let file = build_cache_file(0x0102_0304_0506_0708, 99, &[0xaa, 0xbb]);
    assert_eq!(file.len(), 18);
    assert_eq!(&file[0..8], &[0x08, 0x07, 0x06, 0x05, 0x04, 0x03, 0x02, 0x01]);
    assert_eq!(&file[8..16], &[99, 0, 0, 0, 0, 0, 0, 0]);
    assert_eq!(&file[16..], &[0xaa, 0xbb]);
}

#[test]
fn cache_round_trip_is_accepted() {
    let compiled = vec![1u8, 2, 3, 4, 5];
    let file = build_cache_file(777, 123456, &compiled);
    // an unmodified cache written by this engine deserializes to the same
    // compiled bytes
    let payload = read_compiled(&file, 777, 123456).unwrap();
    assert_eq!(payload, compiled);
}

#[test]
fn cache_engine_mismatch_is_rejected() {
    let file = build_cache_file(777, 123456, &[1, 2, 3]);
    let r = read_compiled(&file, 778, 123456);
    assert!(matches!(r, Err(HostError::CacheEngineMismatch)));
}

#[test]
fn cache_modified_mismatch_is_rejected() {
    let file = build_cache_file(777, 123456, &[1, 2, 3]);
    let r = read_compiled(&file, 777, 123457);
    assert!(matches!(r, Err(HostError::CacheModifiedMismatch)));
}

#[test]
fn cache_too_short_is_rejected() {
    // a truncated cache file reads as zero-padded integers, which do not
    // match a real fingerprint
    let r = read_compiled(&[0x01u8, 0x02], 777, 123456);
    assert!(r.is_err());
}

#[test]
fn cache_empty_payload_round_trips() {
    let file = build_cache_file(5, 6, &[]);
    assert_eq!(read_compiled(&file, 5, 6).unwrap(), Vec::<u8>::new());
}
