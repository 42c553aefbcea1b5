//! The compact integer codec at each of its mode boundaries, canonical and
//! non-canonical encodings, and the encoder round trip.

use desub::compact::compact_encode_u32;
use desub::cursor::ByteCursor;
use desub::error::DecodeError;

fn decode_u32(bytes: &[u8]) -> Result<u32, DecodeError> {
    let mut cursor = ByteCursor::new(bytes);
    cursor.read_compact_u32()
}

#[test]
fn compact_zero() {
    assert_eq!(compact_encode_u32(0), vec![0x00]);
    assert_eq!(decode_u32(&[0x00]), Ok(0));
}

#[test]
fn compact_six_bit_max() {
    assert_eq!(compact_encode_u32(63), vec![0xfc]);
    assert_eq!(decode_u32(&[0xfc]), Ok(63));
}

#[test]
fn compact_two_byte_min() {
    assert_eq!(compact_encode_u32(64), vec![0x01, 0x01]);
    assert_eq!(decode_u32(&[0x01, 0x01]), Ok(64));
}

#[test]
fn compact_two_byte_max() {
    assert_eq!(compact_encode_u32(16383), vec![0xfd, 0xff]);
    assert_eq!(decode_u32(&[0xfd, 0xff]), Ok(16383));
}

#[test]
fn compact_four_byte_min() {
    assert_eq!(compact_encode_u32(16384), vec![0x02, 0x00, 0x01, 0x00]);
    assert_eq!(decode_u32(&[0x02, 0x00, 0x01, 0x00]), Ok(16384));
}

#[test]
fn compact_four_byte_max() {
    // 2^30 - 1 is the widest value the four-byte mode can carry.
    assert_eq!(decode_u32(&[0xfe, 0xff, 0xff, 0xff]), Ok(1073741823));
}

#[test]
fn compact_u32_max() {
    assert_eq!(compact_encode_u32(u32::MAX), vec![0x03, 0xff, 0xff, 0xff, 0xff]);
    assert_eq!(decode_u32(&[0x03, 0xff, 0xff, 0xff, 0xff]), Ok(u32::MAX));
}

#[test]
fn compact_two_to_the_32_overflows_u32() {
    // 2^32 takes five value bytes; a 32-bit read must reject it.
    let bytes = [0x07, 0x00, 0x00, 0x00, 0x00, 0x01];
    assert_eq!(
        decode_u32(&bytes),
        Err(DecodeError::CompactOverflow { declared_width: 4, value_bytes: 5 })
    );
}

#[test]
fn compact_two_to_the_32_as_biguint() {
    let bytes = [0x07, 0x00, 0x00, 0x00, 0x00, 0x01];
    let mut cursor = ByteCursor::new(&bytes);
    let payload = cursor.read_compact_biguint().expect("five value bytes");
    assert_eq!(payload, vec![0x00, 0x00, 0x00, 0x00, 0x01]);
    assert_eq!(cursor.remaining(), 0);
}

#[test]
fn compact_accepts_non_canonical_encodings() {
    // The value 1 in each of the four modes.
    assert_eq!(decode_u32(&[0x04]), Ok(1));
    assert_eq!(decode_u32(&[0x05, 0x00]), Ok(1));
    assert_eq!(decode_u32(&[0x06, 0x00, 0x00, 0x00]), Ok(1));
    assert_eq!(decode_u32(&[0x03, 0x01, 0x00, 0x00, 0x00]), Ok(1));
}

#[test]
fn compact_round_trip_samples() {
    let samples =
        [0u32, 1, 42, 63, 64, 100, 16383, 16384, 65536, 1073741823, 1073741824, u32::MAX];
    for v in samples {
        let enc = compact_encode_u32(v);
        let expected_len: usize = if v < 64 {
            1
        } else if v < 16384 {
            2
        } else if v < 1073741824 {
            4
        } else {
            5
        };
        assert_eq!(enc.len(), expected_len);
        assert_eq!(decode_u32(&enc), Ok(v));
    }
}

#[test]
fn compact_eof() {
    assert_eq!(
        decode_u32(&[]),
        Err(DecodeError::UnexpectedEof { need: 1, have: 0, offset: 0 })
    );
    assert_eq!(
        decode_u32(&[0x02, 0x00]),
        Err(DecodeError::UnexpectedEof { need: 3, have: 1, offset: 1 })
    );
}

#[test]
fn cursor_fixed_width_reads() {
    let bytes = [0x34, 0x12, 0x78, 0x56, 0x34, 0x12];
    let mut cursor = ByteCursor::new(&bytes);
    assert_eq!(cursor.read_u16_le(), Ok(0x1234));
    assert_eq!(cursor.read_u32_le(), Ok(0x12345678));
    assert_eq!(
        cursor.read_u64_le(),
        Err(DecodeError::UnexpectedEof { need: 8, have: 0, offset: 6 })
    );
}

#[test]
fn cursor_u128_read() {
    let mut bytes = [0u8; 16];
    bytes[0] = 1;
    bytes[15] = 0x80;
    let mut cursor = ByteCursor::new(&bytes);
    assert_eq!(cursor.read_u128_le(), Ok((1u128 << 127) + 1));
    assert_eq!(cursor.remaining(), 0);
}
