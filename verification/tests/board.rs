use switcher::board::{
    advertised_name, device_id_from_words, ensure_regout0_is_3v0, regout0_plan,
    relay_output_high, status_led_output_high, Regout0Plan, Regout0Voltage,
};
use switcher::protocol::RelayState;

#[test]
fn advertised_name_uses_prefix_and_low_word_suffix() {
    let literal: &[u8] = b"\x12\x34\x56\x78abcdef";
    let device_id: [u8; 8] = literal[..8].try_into().unwrap();
    let name = advertised_name(&device_id);
    assert_eq!(name.as_str(), "dongle-12345678");
}

#[test]
fn device_id_words_are_encoded_little_endian() {
    assert_eq!(
        device_id_from_words(0x7856_3412, 0xf0de_bc9a),
        [0x12, 0x34, 0x56, 0x78, 0x9a, 0xbc, 0xde, 0xf0]
    );
}

#[test]
fn active_high_semantics() {
    assert!(RelayState::On.as_bool());
    assert!(!RelayState::Off.as_bool());
}

#[test]
fn relay_and_led_pin_levels() {
    assert!(relay_output_high(RelayState::On));
    assert!(!relay_output_high(RelayState::Off));
    assert!(!status_led_output_high(true));
    assert!(status_led_output_high(false));
    ensure_regout0_is_3v0();
}

#[test]
fn regout0_is_programmed_only_when_needed() {
    assert_eq!(regout0_plan(Some(Regout0Voltage::V3_0)), Regout0Plan::Keep);
    assert_eq!(
        regout0_plan(Some(Regout0Voltage::Default)),
        Regout0Plan::Program { erase_first: false }
    );
    assert_eq!(regout0_plan(Some(Regout0Voltage::V1_8)), Regout0Plan::Program { erase_first: true });
    assert_eq!(regout0_plan(None), Regout0Plan::Program { erase_first: true });
}

#[test]
fn advertised_name_uses_lowercase_hex() {
    let name = advertised_name(&[0xab, 0xcd, 0xef, 0x01, 0, 0, 0, 0]);
    assert_eq!(name.as_str(), "dongle-abcdef01");
}

#[test]
fn regout0_needs_programming_once() {
    for current in [
        None,
        Some(Regout0Voltage::V1_8),
        Some(Regout0Voltage::V3_3),
        Some(Regout0Voltage::Default),
        Some(Regout0Voltage::V3_0),
    ] {
        let plan = regout0_plan(current);
        assert_eq!(plan == Regout0Plan::Keep, current == Some(Regout0Voltage::V3_0));
    }
    assert_eq!(regout0_plan(Some(Regout0Voltage::V3_0)), Regout0Plan::Keep);
}
