use tarn::leb::{decode_sleb_from, decode_uleb_from};
use tarn::wasm::base::{encode_i32, encode_u32};

#[test]
fn uleb_known_bytes() {
    assert_eq!(encode_u32(0), vec![0x00]);
    assert_eq!(encode_u32(1), vec![0x01]);
    assert_eq!(encode_u32(127), vec![0x7F]);
    assert_eq!(encode_u32(128), vec![0x80, 0x01]);
    assert_eq!(encode_u32(624485), vec![0xE5, 0x8E, 0x26]);
    assert_eq!(encode_u32(u32::MAX), vec![0xFF, 0xFF, 0xFF, 0xFF, 0x0F]);
}

#[test]
fn sleb_known_bytes() {
    assert_eq!(encode_i32(0), vec![0x00]);
    assert_eq!(encode_i32(42), vec![0x2A]);
    assert_eq!(encode_i32(63), vec![0x3F]);
    assert_eq!(encode_i32(64), vec![0xC0, 0x00]);
    assert_eq!(encode_i32(-1), vec![0x7F]);
    assert_eq!(encode_i32(-64), vec![0x40]);
    assert_eq!(encode_i32(-65), vec![0xBF, 0x7F]);
    assert_eq!(encode_i32(65), vec![0xC1, 0x00]);
}

#[test]
fn uleb_round_trip_values() {
    for n in [0u32, 1, 2, 63, 64, 127, 128, 129, 255, 256, 624485, 1 << 20, u32::MAX - 1, u32::MAX]
    {
        let bytes = encode_u32(n);
        let decoded = decode_uleb_from(&bytes, 0);
        assert_eq!(decoded, Some((n, bytes.len())));
    }
}

#[test]
fn sleb_round_trip_values() {
    for n in [0i32, 1, -1, 42, -42, 63, 64, -64, -65, 127, 128, -128, 123456, -123456, i32::MAX,
        i32::MIN]
    {
        let bytes = encode_i32(n);
        let decoded = decode_sleb_from(&bytes, 0);
        assert_eq!(decoded, Some((n, bytes.len())));
    }
}

#[test]
fn uleb_decode_boundary() {
    assert_eq!(decode_uleb_from(&[0xE5, 0x8E, 0x26], 0), Some((624485, 3)));
    // Trailing bytes are not consumed.
    assert_eq!(decode_uleb_from(&[0x7F, 0xAA, 0xBB], 0), Some((127, 1)));
    // An unterminated encoding fails.
    assert_eq!(decode_uleb_from(&[0x80], 0), None);
    assert_eq!(decode_uleb_from(&[], 0), None);
    // A value beyond u32 fails.
    assert_eq!(decode_uleb_from(&[0xFF, 0xFF, 0xFF, 0xFF, 0x1F], 0), None);
}

#[test]
fn sleb_decode_cases() {
    assert_eq!(decode_sleb_from(&[0x7F], 0), Some((-1, 1)));
    assert_eq!(decode_sleb_from(&[0x40], 0), Some((-64, 1)));
    assert_eq!(decode_sleb_from(&[0xC0, 0x00], 0), Some((64, 2)));
    assert_eq!(decode_sleb_from(&[], 0), None);
}
