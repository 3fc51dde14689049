use switcher::device_id::{format_device_id, hex_digit, parse_device_id, parse_hex_nibble, DeviceIdError};

#[test]
fn format_and_parse_roundtrip() {
    let device_id = [0x12, 0x34, 0xab, 0xcd, 0xef, 0x00, 0x01, 0x02];
    let encoded = format_device_id(&device_id);
    assert_eq!(encoded, "1234abcdef000102");
    assert_eq!(parse_device_id(&encoded).unwrap(), device_id);
}

#[test]
fn parse_rejects_invalid_length() {
    assert!(parse_device_id("abcd").is_err());
}

#[test]
fn parse_reports_length_and_bad_digits() {
    assert_eq!(parse_device_id("abcd"), Err(DeviceIdError::WrongLength(4)));
    assert_eq!(parse_device_id("0011223344556677"), Ok([0, 0x11, 0x22, 0x33, 0x44, 0x55, 0x66, 0x77]));
    assert_eq!(parse_device_id("  8899aabbccddeeff\n"), Ok([0x88, 0x99, 0xaa, 0xbb, 0xcc, 0xdd, 0xee, 0xff]));
    assert_eq!(parse_device_id("8899AABBCCDDEEFF"), Err(DeviceIdError::InvalidCharacter));
    assert_eq!(parse_device_id("00112233445566zz"), Err(DeviceIdError::InvalidCharacter));
    assert_eq!(parse_device_id("00112233445566é"), Err(DeviceIdError::InvalidCharacter));
}

#[test]
fn hex_digits() {
    assert_eq!(hex_digit(0), '0');
    assert_eq!(hex_digit(9), '9');
    assert_eq!(hex_digit(10), 'a');
    assert_eq!(hex_digit(15), 'f');
    assert_eq!(parse_hex_nibble(b'c'), Ok(12));
    assert_eq!(parse_hex_nibble(b'G'), Err(DeviceIdError::InvalidCharacter));
}

#[test]
fn parsed_ids_format_back_to_the_trimmed_text() {
    let text = "  8899aabbccddeeff\n";
    let id = parse_device_id(text).unwrap();
    assert_eq!(format_device_id(&id), text.trim());
    assert_eq!(id, [0x88, 0x99, 0xaa, 0xbb, 0xcc, 0xdd, 0xee, 0xff]);
}
