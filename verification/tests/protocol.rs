use switcher::protocol::{
    DeviceIdentity, HealthCode, HealthStatus, ProtocolError, RelayCommand, RelayState,
    PROTOCOL_VERSION,
};

#[test]
fn command_roundtrip() {
    let command = RelayCommand::Toggle;
    assert_eq!(RelayCommand::try_from(command.encode().as_slice()), Ok(command));
}

#[test]
fn state_toggle_roundtrip() {
    let state = RelayState::On;
    assert_eq!(RelayState::try_from(state.encode().as_slice()), Ok(state));
    assert_eq!(state.toggle(), RelayState::Off);
}

#[test]
fn health_roundtrip() {
    let status = HealthStatus::new(7, 42, HealthCode::BleDisconnected);
    let encoded = status.encode();
    assert_eq!(HealthStatus::try_from(encoded.as_slice()), Ok(status));
}

#[test]
fn command_bytes_are_fixed() {
    assert_eq!(RelayCommand::Off.encode(), [0]);
    assert_eq!(RelayCommand::On.encode(), [1]);
    assert_eq!(RelayCommand::Toggle.encode(), [2]);
    assert_eq!(RelayState::Off.encode(), [0]);
    assert_eq!(RelayState::On.encode(), [1]);
}

#[test]
fn every_command_and_state_roundtrips() {
    for c in [RelayCommand::Off, RelayCommand::On, RelayCommand::Toggle] {
        assert_eq!(RelayCommand::try_from(c.encode().as_slice()), Ok(c));
    }
    for s in [RelayState::Off, RelayState::On] {
        assert_eq!(RelayState::try_from(s.encode().as_slice()), Ok(s));
        assert_eq!(s.toggle().toggle(), s);
        assert_eq!(RelayState::from_bool(s.as_bool()), s);
    }
}

#[test]
fn decode_errors_name_the_offending_byte() {
    assert_eq!(RelayCommand::try_from(&[3u8][..]), Err(ProtocolError::InvalidCommand(3)));
    assert_eq!(RelayCommand::try_from(&[][..]), Err(ProtocolError::WrongLength));
    assert_eq!(RelayCommand::try_from(&[1u8, 1][..]), Err(ProtocolError::WrongLength));
    assert_eq!(RelayState::try_from(&[2u8][..]), Err(ProtocolError::InvalidState(2)));
    assert_eq!(RelayState::try_from(&[0u8, 0][..]), Err(ProtocolError::WrongLength));
    let mut health = HealthStatus::new(1, 2, HealthCode::NoError).encode();
    health[9] = 9;
    assert_eq!(HealthStatus::try_from(&health[..]), Err(ProtocolError::InvalidHealth(9)));
    assert_eq!(HealthStatus::try_from(&health[..9]), Err(ProtocolError::WrongLength));
    assert_eq!(DeviceIdentity::try_from(&[0u8; 11][..]), Err(ProtocolError::WrongLength));
}

#[test]
fn health_encoding_is_little_endian() {
    let status = HealthStatus::new(0x0403_0201, 0x0807_0605, HealthCode::InternalError);
    assert_eq!(status.protocol_version, PROTOCOL_VERSION);
    assert_eq!(status.encode(), [1, 1, 2, 3, 4, 5, 6, 7, 8, 2]);
    assert_eq!(HealthStatus::ENCODED_LEN, 10);
}

#[test]
fn identity_roundtrip() {
    let identity = DeviceIdentity::new(*b"dongle01", [0, 2, 0]);
    let encoded = identity.encode();
    assert_eq!(encoded, [1, b'd', b'o', b'n', b'g', b'l', b'e', b'0', b'1', 0, 2, 0]);
    assert_eq!(DeviceIdentity::try_from(encoded.as_slice()), Ok(identity));
    assert_eq!(DeviceIdentity::ENCODED_LEN, 12);
}
