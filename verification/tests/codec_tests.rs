use sigindex::codec::{decode_bytes, decode_uint, encode_height_digits, FormatError};

#[test]
fn decode_even_length() {
    assert_eq!(decode_bytes("0x1234".as_bytes()).unwrap(), vec![0x12, 0x34]);
}

#[test]
fn decode_without_prefix() {
    assert_eq!(decode_bytes("ff".as_bytes()).unwrap(), vec![0xff]);
}

#[test]
fn decode_uppercase_digits() {
    assert_eq!(decode_bytes("0xAB".as_bytes()).unwrap(), vec![0xab]);
}

#[test]
fn decode_odd_length_pads_zero_nibble() {
    assert_eq!(decode_bytes("0xabc".as_bytes()).unwrap(), vec![0x0a, 0xbc]);
}

#[test]
fn decode_odd_equals_explicitly_padded() {
    let odd = decode_bytes("0xabc".as_bytes()).unwrap();
    let padded = decode_bytes("0x0abc".as_bytes()).unwrap();
    assert_eq!(odd, padded);
}

#[test]
fn decode_single_digit() {
    assert_eq!(decode_bytes("0x5".as_bytes()).unwrap(), vec![0x05]);
}

#[test]
fn decode_empty_is_empty() {
    assert_eq!(decode_bytes("".as_bytes()).unwrap(), Vec::<u8>::new());
    assert_eq!(decode_bytes("0x".as_bytes()).unwrap(), Vec::<u8>::new());
}

#[test]
fn decode_rejects_non_hex() {
    assert_eq!(
        decode_bytes("0xzz".as_bytes()).unwrap_err(),
        FormatError::NonHexDigit
    );
}

#[test]
fn uint_basic() {
    assert_eq!(decode_uint("0x10".as_bytes()).unwrap(), 16);
    assert_eq!(decode_uint("1b4".as_bytes()).unwrap(), 0x1b4);
    assert_eq!(decode_uint("0x0".as_bytes()).unwrap(), 0);
}

#[test]
fn uint_max_fits() {
    assert_eq!(
        decode_uint("0xffffffffffffffff".as_bytes()).unwrap(),
        u64::MAX
    );
}

#[test]
fn uint_empty_is_error() {
    assert_eq!(decode_uint("0x".as_bytes()).unwrap_err(), FormatError::Empty);
    assert_eq!(decode_uint("".as_bytes()).unwrap_err(), FormatError::Empty);
}

#[test]
fn uint_non_hex_is_error() {
    assert_eq!(
        decode_uint("0x12g4".as_bytes()).unwrap_err(),
        FormatError::NonHexDigit
    );
}

#[test]
fn uint_overflow_is_error() {
    assert_eq!(
        decode_uint("0x10000000000000000".as_bytes()).unwrap_err(),
        FormatError::Overflow
    );
}

#[test]
fn height_encoding_is_minimal() {
    assert_eq!(encode_height_digits(0), "0".as_bytes());
    assert_eq!(encode_height_digits(1), "1".as_bytes());
    assert_eq!(encode_height_digits(255), "ff".as_bytes());
    assert_eq!(encode_height_digits(0x1b4), "1b4".as_bytes());
}
