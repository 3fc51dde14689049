use switcher::firmware::FirmwareApp;
use switcher::protocol::{DeviceIdentity, HealthCode, HealthStatus, RelayCommand, RelayState};

#[test]
fn starts_off() {
    let app = FirmwareApp::new(*b"dongle01", [0, 1, 0]);
    assert_eq!(app.relay_state(), RelayState::Off);
}

#[test]
fn applies_commands() {
    let mut app = FirmwareApp::new(*b"dongle01", [0, 1, 0]);
    assert_eq!(app.apply_command(RelayCommand::On), RelayState::On);
    assert_eq!(app.apply_command(RelayCommand::Toggle), RelayState::Off);
    assert_eq!(app.apply_command(RelayCommand::Off), RelayState::Off);
}

#[test]
fn tick_saturates_uptime() {
    let mut app = FirmwareApp::new(*b"dongle01", [0, 1, 0]);
    app.tick(5);
    assert_eq!(app.snapshot().uptime_seconds, 5);
    app.tick(u32::MAX);
    assert_eq!(app.snapshot().uptime_seconds, u32::MAX);
}

#[test]
fn health_reflects_status() {
    let mut app = FirmwareApp::new(*b"dongle01", [0, 1, 0]);
    app.tick(42);
    app.set_last_error(HealthCode::BleDisconnected);
    assert_eq!(app.health_status(), HealthStatus::new(1, 42, HealthCode::BleDisconnected));
    assert_eq!(*app.identity(), DeviceIdentity::new(*b"dongle01", [0, 1, 0]));
    let snapshot = app.snapshot();
    assert_eq!(snapshot.boot_count, 1);
    assert_eq!(snapshot.last_error, HealthCode::BleDisconnected);
    app.set_uptime_seconds(7);
    assert_eq!(app.snapshot().uptime_seconds, 7);
}

#[test]
fn commands_leave_identity_alone() {
    let mut app = FirmwareApp::new(*b"abcdefgh", [1, 2, 3]);
    app.apply_command(RelayCommand::Toggle);
    app.apply_command(RelayCommand::Toggle);
    assert_eq!(app.relay_state(), RelayState::Off);
    assert_eq!(app.identity().device_id, *b"abcdefgh");
}

#[test]
fn heartbeat_toggles_and_counts() {
    let mut app = FirmwareApp::new(*b"dongle01", [0, 1, 0]);
    assert_eq!(app.heartbeat(), RelayState::On);
    assert_eq!(app.heartbeat(), RelayState::Off);
    assert_eq!(app.snapshot().uptime_seconds, 2);
}
