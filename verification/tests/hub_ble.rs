use switcher::ble::{
    decode_exact_or_prefix, decode_health_value, decode_identity_value,
    decode_state_value, matches_connected_dongle, metadata_map, recognise_dongle,
    normalize_ble_address, parse_uuid, select_peripheral, BleError, MockBleState, PeripheralInfo,
};
use switcher::protocol::{
    DeviceIdentity, HealthCode, HealthStatus, ProtocolError, RelayCommand, RelayState,
    COMMAND_UUID, HEALTH_UUID, IDENTITY_UUID, SERVICE_UUID, STATE_UUID,
};

fn uuid(text: &str) -> u128 {
    parse_uuid(text).unwrap()
}

#[test]
fn uuids_parse_to_their_values() {
    assert_eq!(uuid(SERVICE_UUID), 0x0f0e0d0c_0b0a_4900_8100_001122334455);
    assert_eq!(parse_uuid("not a uuid"), Err(BleError::InvalidUuid));
}

#[test]
fn addresses_are_normalised() {
    assert_eq!(normalize_ble_address("  AA:BB:CC:DD:EE:FF\n"), Some("AA:BB:CC:DD:EE:FF".to_string()));
    assert_eq!(normalize_ble_address("   "), None);
    assert_eq!(normalize_ble_address("00:00:00:00:00:00"), None);
    let once = normalize_ble_address(" 11:22:33:44:55:66 ").unwrap();
    assert_eq!(normalize_ble_address(&once), Some(once.clone()));
}

#[test]
fn payloads_decode_from_their_prefix() {
    assert_eq!(decode_exact_or_prefix::<2>(&[1, 2, 3], "x"), Ok(&[1u8, 2][..]));
    assert_eq!(
        decode_exact_or_prefix::<4>(&[1, 2, 3], "x"),
        Err(BleError::PayloadTooShort { label: "x", expected: 4, actual: 3 })
    );
    assert_eq!(decode_state_value(&[1, 9]), Ok(RelayState::On));
    assert_eq!(decode_state_value(&[5]), Err(BleError::Protocol(ProtocolError::InvalidState(5))));
    assert_eq!(
        decode_state_value(&[]),
        Err(BleError::PayloadTooShort { label: "state", expected: 1, actual: 0 })
    );
    let health = HealthStatus::new(3, 60, HealthCode::NoError);
    let mut bytes = health.encode().to_vec();
    bytes.push(0xff);
    assert_eq!(decode_health_value(&bytes), Ok(health));
    let identity = DeviceIdentity::new(*b"dongle01", [1, 2, 3]);
    assert_eq!(decode_identity_value(&identity.encode()), Ok(identity));
    assert_eq!(
        decode_identity_value(&[0; 5]),
        Err(BleError::PayloadTooShort { label: "identity", expected: 12, actual: 5 })
    );
}

#[test]
fn connected_peripherals_are_recognised() {
    let characteristics =
        vec![uuid(STATE_UUID), uuid(COMMAND_UUID), uuid(HEALTH_UUID), uuid(IDENTITY_UUID)];
    assert!(matches_connected_dongle(&vec![uuid(SERVICE_UUID)], &vec![]));
    assert!(matches_connected_dongle(&vec![], &characteristics));
    assert!(!matches_connected_dongle(&vec![], &characteristics[..3].to_vec()));
    assert!(!matches_connected_dongle(&vec![1, 2], &vec![3]));
}

#[test]
fn metadata_lists_id_version_and_boot_count() {
    let identity = DeviceIdentity::new([0x12, 0xab, 0, 1, 2, 3, 4, 0xff], [0, 12, 3]);
    let health = HealthStatus::new(1024, 0, HealthCode::NoError);
    let map = metadata_map(&identity, &health);
    assert_eq!(map[0], ("device_id", "[12, ab, 00, 01, 02, 03, 04, ff]".to_string()));
    assert_eq!(map[1], ("firmware_version", "0.12.3".to_string()));
    assert_eq!(map[2], ("boot_count", "1024".to_string()));
    assert_eq!(map[0].1, format!("{:02x?}", identity.device_id));
}

#[test]
fn mock_dongle_follows_commands() {
    let mut mock = MockBleState::new();
    assert_eq!(mock.send_command(RelayCommand::On), Err(BleError::Disconnected));
    assert_eq!(mock.connect(), Ok(()));
    assert_eq!(mock.send_command(RelayCommand::On), Ok(RelayState::On));
    assert_eq!(mock.send_command(RelayCommand::Toggle), Ok(RelayState::Off));
    assert_eq!(mock.current_state(), Ok(RelayState::Off));
    assert_eq!(mock.identity().unwrap().device_id, *b"dongle01");
    assert_eq!(mock.address(), Some("AA:BB:CC:DD:EE:FF".to_string()));
    mock.disconnect();
    assert_eq!(mock.health(), Err(BleError::Disconnected));
    mock.fail_next_connect();
    assert_eq!(mock.connect(), Err(BleError::ConnectFailed));
    assert_eq!(mock.connect(), Ok(()));
}

#[test]
fn every_uuid_constant_parses_to_its_value() {
    assert_eq!(uuid(SERVICE_UUID), 0x0f0e0d0c_0b0a_4900_8100_001122334455);
    assert_eq!(uuid(STATE_UUID), 0x0f0e0d0c_0b0a_4900_8101_001122334455);
    assert_eq!(uuid(COMMAND_UUID), 0x0f0e0d0c_0b0a_4900_8102_001122334455);
    assert_eq!(uuid(HEALTH_UUID), 0x0f0e0d0c_0b0a_4900_8103_001122334455);
    assert_eq!(uuid(IDENTITY_UUID), 0x0f0e0d0c_0b0a_4900_8104_001122334455);
    assert_eq!(uuid("0F0E0D0C-0B0A-4900-8104-001122334455"), uuid(IDENTITY_UUID));
}

const ID_A: [u8; 8] = [0x00, 0x11, 0x22, 0x33, 0x44, 0x55, 0x66, 0x77];
const ID_B: [u8; 8] = [0x88, 0x99, 0xaa, 0xbb, 0xcc, 0xdd, 0xee, 0xff];

fn peripheral(address: Option<&str>, dongle: bool, identity: Option<[u8; 8]>) -> PeripheralInfo {
    PeripheralInfo {
        address: address.map(|a| a.to_string()),
        services: if dongle { vec![uuid(SERVICE_UUID)] } else { vec![0x1234] },
        identity,
    }
}

#[test]
fn selection_prefers_the_preferred_address() {
    let ps = vec![
        peripheral(Some("11:11:11:11:11:11"), true, Some(ID_A)),
        peripheral(Some("22:22:22:22:22:22"), false, None),
        peripheral(Some("aa:bb:cc:dd:ee:ff"), false, None),
    ];
    let r = select_peripheral(&ps, Some("AA:BB:CC:DD:EE:FF"), Some("22:22:22:22:22:22"), Some(ID_A));
    assert_eq!(r, Some(2));
}

#[test]
fn selection_falls_back_to_the_last_seen_address() {
    let ps = vec![
        peripheral(Some("11:11:11:11:11:11"), true, Some(ID_A)),
        peripheral(Some("22:22:22:22:22:22"), false, None),
    ];
    let r = select_peripheral(&ps, Some("AA:BB:CC:DD:EE:FF"), Some("22:22:22:22:22:22"), Some(ID_A));
    assert_eq!(r, Some(1));
    let r = select_peripheral(&ps, None, Some("22:22:22:22:22:22"), Some(ID_A));
    assert_eq!(r, Some(1));
}

#[test]
fn selection_then_takes_a_dongle_with_the_expected_identity() {
    let ps = vec![
        peripheral(Some("11:11:11:11:11:11"), false, Some(ID_A)),
        peripheral(Some("22:22:22:22:22:22"), true, Some(ID_B)),
        peripheral(None, true, None),
        peripheral(Some("33:33:33:33:33:33"), true, Some(ID_A)),
        peripheral(Some("44:44:44:44:44:44"), true, Some(ID_A)),
    ];
    assert_eq!(select_peripheral(&ps, None, None, Some(ID_A)), Some(3));
    assert_eq!(select_peripheral(&ps, Some("55:55:55:55:55:55"), None, Some(ID_B)), Some(1));
}

#[test]
fn selection_rejects_dongles_with_another_identity() {
    let ps = vec![
        peripheral(Some("11:11:11:11:11:11"), true, Some(ID_B)),
        peripheral(Some("22:22:22:22:22:22"), true, None),
        peripheral(Some("33:33:33:33:33:33"), false, Some(ID_A)),
    ];
    assert_eq!(select_peripheral(&ps, None, None, Some(ID_A)), None);
    assert_eq!(select_peripheral(&ps, Some("99:99:99:99:99:99"), None, Some(ID_A)), None);
    assert_eq!(select_peripheral(&Vec::new(), Some("11:11:11:11:11:11"), None, None), None);
}

#[test]
fn selection_without_an_expected_id_takes_any_dongle() {
    let ps = vec![
        peripheral(Some("11:11:11:11:11:11"), false, None),
        peripheral(Some("22:22:22:22:22:22"), true, None),
        peripheral(Some("33:33:33:33:33:33"), true, Some(ID_B)),
    ];
    assert_eq!(select_peripheral(&ps, None, None, None), Some(1));
}

#[test]
fn dongles_are_recognised_from_parsed_uuids() {
    let (sv, st, cm, hl, id) = (Some(10), Some(11), Some(12), Some(13), Some(14));
    assert!(recognise_dongle(&vec![1, 10], &vec![], sv, st, cm, hl, id));
    assert!(recognise_dongle(&vec![], &vec![14, 13, 12, 11], sv, st, cm, hl, id));
    assert!(!recognise_dongle(&vec![], &vec![14, 13, 12], sv, st, cm, hl, id));
    assert!(!recognise_dongle(&vec![11], &vec![10], sv, st, cm, hl, id));
    assert!(recognise_dongle(&vec![10], &vec![11, 12, 13, 14], None, st, cm, hl, id));
    assert!(!recognise_dongle(&vec![10], &vec![11, 12, 13], None, st, cm, hl, id));
    assert!(!recognise_dongle(&vec![], &vec![11, 12, 13, 14], sv, st, None, hl, id));
}
