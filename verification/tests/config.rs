use switcher::config::{default_enabled, ConfigError, HubConfig, RegisteredDongle};
use switcher::device_id::DeviceIdError;

fn dongle(device_id: &str, endpoint_id: u16, enabled: bool, address: Option<&str>) -> RegisteredDongle {
    RegisteredDongle {
        device_id: device_id.to_string(),
        endpoint_id,
        enabled,
        preferred_ble_address: address.map(|a| a.to_string()),
    }
}

#[test]
fn config_roundtrip_multiple_dongles() {
    let mut config = HubConfig {
        dongles: vec![
            dongle("0011223344556677", 2, true, Some("AA:BB:CC:DD:EE:FF")),
            dongle("8899aabbccddeeff", 3, false, None),
        ],
    };
    config.normalize().unwrap();

    assert_eq!(config.dongles.len(), 2);
    assert_eq!(config.dongles[0].device_id, "0011223344556677");
    assert_eq!(config.dongles[0].preferred_ble_address.as_deref(), Some("AA:BB:CC:DD:EE:FF"));
    assert!(!config.dongles[1].enabled);
}

#[test]
fn normalize_canonicalises_and_sorts() {
    let mut config = HubConfig {
        dongles: vec![
            dongle(" 8899AABBCCDDEEFF ", 5, true, Some("  00:00:00:00:00:00 ")),
            dongle("0011223344556677", 3, true, Some(" aa:bb:cc:dd:ee:01\t")),
        ],
    };
    config.normalize().unwrap();
    assert_eq!(config.dongles[0].endpoint_id, 3);
    assert_eq!(config.dongles[0].preferred_ble_address.as_deref(), Some("aa:bb:cc:dd:ee:01"));
    assert_eq!(config.dongles[1].device_id, "8899aabbccddeeff");
    assert_eq!(config.dongles[1].preferred_ble_address, None);
}

#[test]
fn normalize_refuses_bad_configs() {
    let mut dup_id = HubConfig {
        dongles: vec![dongle("0011223344556677", 2, true, None), dongle("0011223344556677", 3, true, None)],
    };
    assert_eq!(dup_id.normalize(), Err(ConfigError::DuplicateDeviceId("0011223344556677".to_string())));

    let mut dup_endpoint = HubConfig {
        dongles: vec![dongle("0011223344556677", 2, true, None), dongle("8899aabbccddeeff", 2, true, None)],
    };
    assert_eq!(dup_endpoint.normalize(), Err(ConfigError::DuplicateEndpointId(2)));

    let mut reserved = HubConfig { dongles: vec![dongle("0011223344556677", 1, true, None)] };
    assert_eq!(reserved.normalize(), Err(ConfigError::ReservedEndpointId(1)));

    let mut bad_id = HubConfig { dongles: vec![dongle("0011", 2, true, None)] };
    assert_eq!(bad_id.normalize(), Err(ConfigError::DeviceId(DeviceIdError::WrongLength(4))));
}

#[test]
fn enabled_dongles_keeps_order() {
    let config = HubConfig {
        dongles: vec![
            dongle("0011223344556677", 2, true, None),
            dongle("8899aabbccddeeff", 3, false, None),
            dongle("0102030405060708", 4, true, None),
        ],
    };
    let enabled = config.enabled_dongles();
    assert_eq!(enabled.len(), 2);
    assert_eq!(enabled[0].endpoint_id, 2);
    assert_eq!(enabled[1].endpoint_id, 4);
    assert!(default_enabled());
    assert!(HubConfig::default().dongles.is_empty());
}

#[test]
fn normalizing_twice_changes_nothing() {
    let mut config = HubConfig {
        dongles: vec![
            dongle(" 8899AABBCCDDEEFF ", 7, true, Some(" aa:bb:cc:dd:ee:ff ")),
            dongle("0011223344556677", 3, false, Some("00:00:00:00:00:00")),
            dongle("\t0123456789abcdef", 5, true, None),
        ],
    };
    config.normalize().unwrap();
    let once: Vec<(String, u16, bool, Option<String>)> = config
        .dongles
        .iter()
        .map(|d| (d.device_id.clone(), d.endpoint_id, d.enabled, d.preferred_ble_address.clone()))
        .collect();
    assert_eq!(
        once,
        vec![
            ("0011223344556677".to_string(), 3, false, None),
            ("0123456789abcdef".to_string(), 5, true, None),
            ("8899aabbccddeeff".to_string(), 7, true, Some("aa:bb:cc:dd:ee:ff".to_string())),
        ]
    );
    config.normalize().unwrap();
    let twice: Vec<(String, u16, bool, Option<String>)> = config
        .dongles
        .iter()
        .map(|d| (d.device_id.clone(), d.endpoint_id, d.enabled, d.preferred_ble_address.clone()))
        .collect();
    assert_eq!(twice, once);
}

#[test]
fn normalize_succeeds_exactly_on_clean_ids_and_endpoints() {
    let mut mixed_case = HubConfig {
        dongles: vec![
            dongle(" 0011223344556677", 2, true, None),
            dongle("0011223344556677 ", 3, true, None),
        ],
    };
    assert_eq!(
        mixed_case.normalize(),
        Err(ConfigError::DuplicateDeviceId("0011223344556677".to_string()))
    );
    let mut case_only = HubConfig {
        dongles: vec![dongle("AABBCCDDEEFF0011", 2, true, None), dongle("aabbccddeeff0011", 3, true, None)],
    };
    assert_eq!(
        case_only.normalize(),
        Err(ConfigError::DuplicateDeviceId("aabbccddeeff0011".to_string()))
    );
    let mut not_hex = HubConfig { dongles: vec![dongle("00112233445566zz", 2, true, None)] };
    assert_eq!(not_hex.normalize(), Err(ConfigError::DeviceId(DeviceIdError::InvalidCharacter)));
    let mut fine = HubConfig {
        dongles: vec![dongle("AABBCCDDEEFF0011", 9, true, None), dongle("0011223344556677", 2, false, None)],
    };
    assert_eq!(fine.normalize(), Ok(()));
    assert_eq!(fine.dongles[1].device_id, "aabbccddeeff0011");
}
