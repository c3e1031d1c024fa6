use sigindex::cursor::{encode_cursor, initial_height};

#[test]
fn absent_record_defaults_to_one() {
    assert_eq!(initial_height(None), 1);
}

#[test]
fn plain_number_parses() {
    assert_eq!(initial_height(Some(&"42".as_bytes().to_vec())), 42);
}

#[test]
fn trailing_newline_is_trimmed() {
    assert_eq!(initial_height(Some(&"42\n".as_bytes().to_vec())), 42);
    assert_eq!(initial_height(Some(&" 7 \r\n".as_bytes().to_vec())), 7);
}

#[test]
fn unparseable_record_defaults_to_one() {
    assert_eq!(initial_height(Some(&"abc".as_bytes().to_vec())), 1);
    assert_eq!(initial_height(Some(&"".as_bytes().to_vec())), 1);
    assert_eq!(initial_height(Some(&"12 34".as_bytes().to_vec())), 1);
    assert_eq!(initial_height(Some(&"-5".as_bytes().to_vec())), 1);
}

#[test]
fn overflowing_record_defaults_to_one() {
    assert_eq!(
        initial_height(Some(&"99999999999999999999999".as_bytes().to_vec())),
        1
    );
}

#[test]
fn cursor_round_trip() {
    for h in [0u64, 1, 12345, u64::MAX] {
        let text = encode_cursor(h);
        assert_eq!(initial_height(Some(&text)), h);
    }
}

#[test]
fn cursor_encoding_is_decimal_text() {
    assert_eq!(encode_cursor(0), "0".as_bytes());
    assert_eq!(encode_cursor(907), "907".as_bytes());
}
