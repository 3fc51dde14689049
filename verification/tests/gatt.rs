use switcher::firmware::FirmwareApp;
use switcher::gatt::{
    handle_gatt_request, map_read_error, map_write_error, record_link_event, sync_runtime,
    AttRejection, FirmwareGattServer, GattAccessError, GattCharacteristic, GattModel, GattReply,
    GattRequest, GattValue, LinkEvent, StateNotification,
};
use switcher::protocol::{
    DeviceIdentity, HealthCode, HealthStatus, ProtocolError, RelayCommand, RelayState,
    SERVICE_UUID, STATE_UUID,
};

#[test]
fn command_write_updates_state_and_enqueues_notification() {
    let mut app = FirmwareApp::new(*b"dongle01", [0, 1, 0]);
    let mut server = FirmwareGattServer::new();

    let next = server
        .write(GattCharacteristic::Command, &RelayCommand::On.encode(), &mut app)
        .unwrap();

    assert_eq!(next, RelayState::On);
    assert_eq!(
        server.take_notification(),
        Some(StateNotification { state: RelayState::On, payload: RelayState::On.encode() })
    );
    assert_eq!(
        server.read(GattCharacteristic::State, &app).unwrap(),
        GattValue::State(RelayState::On.encode())
    );
}

#[test]
fn read_access_matches_characteristic_capabilities() {
    let app = FirmwareApp::new(*b"dongle01", [0, 1, 0]);
    let server = FirmwareGattServer::new();

    assert!(matches!(
        server.read(GattCharacteristic::Command, &app),
        Err(GattAccessError::NotReadable(GattCharacteristic::Command))
    ));
    assert!(matches!(server.read(GattCharacteristic::Identity, &app), Ok(GattValue::Identity(_))));
}

#[test]
fn write_rejects_non_command_characteristics() {
    let mut app = FirmwareApp::new(*b"dongle01", [0, 1, 0]);
    let mut server = FirmwareGattServer::new();

    assert!(matches!(
        server.write(GattCharacteristic::State, &RelayCommand::On.encode(), &mut app),
        Err(GattAccessError::NotWritable(GattCharacteristic::State))
    ));
}

#[test]
fn notification_is_taken_once() {
    let mut app = FirmwareApp::new(*b"dongle01", [0, 1, 0]);
    let mut server = FirmwareGattServer::new();
    assert_eq!(server.take_notification(), None);
    server.write(GattCharacteristic::Command, &[2], &mut app).unwrap();
    assert!(server.take_notification().is_some());
    assert_eq!(server.take_notification(), None);
}

#[test]
fn invalid_command_write_changes_nothing() {
    let mut app = FirmwareApp::new(*b"dongle01", [0, 1, 0]);
    let mut server = FirmwareGattServer::new();
    assert_eq!(
        server.write(GattCharacteristic::Command, &[7], &mut app),
        Err(GattAccessError::Protocol(ProtocolError::InvalidCommand(7)))
    );
    assert_eq!(app.relay_state(), RelayState::Off);
    assert_eq!(server.take_notification(), None);
}

#[test]
fn snapshot_holds_uuids_and_payloads() {
    let mut app = FirmwareApp::new(*b"dongle01", [0, 1, 0]);
    app.apply_command(RelayCommand::On);
    let server = FirmwareGattServer::new();
    let snapshot = server.snapshot(&app);
    assert_eq!(snapshot.service_uuid, SERVICE_UUID);
    assert_eq!(snapshot.state_uuid, STATE_UUID);
    assert_eq!(snapshot.state_payload, [1]);
    assert_eq!(snapshot.health_payload, HealthStatus::new(1, 0, HealthCode::NoError).encode());
    assert_eq!(snapshot.identity_payload, DeviceIdentity::new(*b"dongle01", [0, 1, 0]).encode());
    let model = GattModel::snapshot(RelayState::Off, &app.health_status(), app.identity());
    assert_eq!(model.state_payload, [0]);
    assert_eq!(GattModel::decode_command(&[1]), Ok(RelayCommand::On));
}

#[test]
fn access_errors_map_to_att_errors() {
    assert_eq!(
        map_read_error(GattAccessError::NotReadable(GattCharacteristic::Command)),
        AttRejection::ReadNotPermitted
    );
    assert_eq!(
        map_write_error(GattAccessError::NotWritable(GattCharacteristic::State)),
        AttRejection::WriteNotPermitted
    );
    assert_eq!(
        map_write_error(GattAccessError::Protocol(ProtocolError::WrongLength)),
        AttRejection::ValueNotAllowed
    );
}

#[test]
fn requests_are_answered() {
    let mut app = FirmwareApp::new(*b"dongle01", [0, 1, 0]);
    let mut server = FirmwareGattServer::new();
    let reply = handle_gatt_request(&mut server, &mut app, GattRequest::Read(GattCharacteristic::State));
    assert_eq!(reply, GattReply::Value(GattValue::State([0])));
    let reply = handle_gatt_request(
        &mut server,
        &mut app,
        GattRequest::Write { offset: 0, data: vec![2] },
    );
    assert_eq!(reply, GattReply::Applied { state: RelayState::On, notify: Some(1) });
    assert_eq!(server.take_notification(), None);
    let reply = handle_gatt_request(
        &mut server,
        &mut app,
        GattRequest::Write { offset: 1, data: vec![0] },
    );
    assert_eq!(reply, GattReply::Reject(AttRejection::ValueNotAllowed));
    let reply = handle_gatt_request(
        &mut server,
        &mut app,
        GattRequest::Write { offset: 0, data: vec![0; 9] },
    );
    assert_eq!(reply, GattReply::Reject(AttRejection::ValueNotAllowed));
    assert_eq!(app.relay_state(), RelayState::On);
    assert_eq!(
        handle_gatt_request(&mut server, &mut app, GattRequest::Read(GattCharacteristic::Command)),
        GattReply::Accept
    );
    assert_eq!(handle_gatt_request(&mut server, &mut app, GattRequest::Other), GattReply::Accept);
}

#[test]
fn link_events_set_last_error() {
    let mut app = FirmwareApp::new(*b"dongle01", [0, 1, 0]);
    record_link_event(&mut app, LinkEvent::Disconnected);
    assert_eq!(app.snapshot().last_error, HealthCode::BleDisconnected);
    record_link_event(&mut app, LinkEvent::NotifyFailed);
    assert_eq!(app.snapshot().last_error, HealthCode::InternalError);
    record_link_event(&mut app, LinkEvent::SessionEnded);
    assert_eq!(app.snapshot().last_error, HealthCode::NoError);
}

#[test]
fn runtime_sync_keeps_uptime_in_32_bits() {
    let mut app = FirmwareApp::new(*b"dongle01", [0, 1, 0]);
    assert_eq!(sync_runtime(&mut app, 90), RelayState::Off);
    assert_eq!(app.snapshot().uptime_seconds, 90);
    sync_runtime(&mut app, (1u64 << 32) + 3);
    assert_eq!(app.snapshot().uptime_seconds, 3);
}
