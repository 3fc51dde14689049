use switcher::bridge::{command_for_state, BridgeStatus, PollOutcome};
use switcher::persistence::{DongleStates, PersistedDongleState, PersistedHubState};
use switcher::protocol::{HealthCode, HealthStatus, RelayCommand, RelayState};

fn known(address: Option<&str>, state: Option<RelayState>) -> PersistedDongleState {
    PersistedDongleState {
        last_seen_ble_address: address.map(|a| a.to_string()),
        last_relay_state: state,
        identity: None,
        health: None,
    }
}

#[test]
fn state_for_reads_back_inserted_states() {
    let mut state = PersistedHubState::default();
    state.dongles.insert("0011223344556677".into(), known(Some("AA:BB:CC:DD:EE:FF"), Some(RelayState::On)));
    state.dongles.insert("8899aabbccddeeff".into(), known(None, Some(RelayState::Off)));
    assert_eq!(state.state_for("0011223344556677"), known(Some("AA:BB:CC:DD:EE:FF"), Some(RelayState::On)));
    assert_eq!(state.state_for("8899aabbccddeeff").last_relay_state, Some(RelayState::Off));
    assert_eq!(state.state_for("ffffffffffffffff"), PersistedDongleState::default());
    assert_eq!(state.dongles.len(), 2);
}

#[test]
fn insert_replaces_existing_key() {
    let mut map = DongleStates::new();
    assert_eq!(map.insert("a".into(), known(None, None)), None);
    assert_eq!(map.insert("a".into(), known(None, Some(RelayState::On))), Some(known(None, None)));
    assert_eq!(map.len(), 1);
    assert_eq!(map.get("a"), Some(&known(None, Some(RelayState::On))));
    assert_eq!(map.entries()[0].0, "a");
}

#[test]
fn statuses_are_recorded_and_restored() {
    let status = BridgeStatus {
        ble_address: Some("AA:BB:CC:DD:EE:01".into()),
        connected: true,
        relay_state: RelayState::On,
        health: Some(HealthStatus::new(2, 5, HealthCode::NoError)),
        identity: None,
    };
    let hub = PersistedHubState::from_statuses(&vec![("id-a".to_string(), status.clone())]);
    let persisted = hub.state_for("id-a");
    assert_eq!(persisted.last_relay_state, Some(RelayState::On));
    let restored = BridgeStatus::from_persisted(persisted);
    assert!(!restored.connected);
    assert_eq!(restored.relay_state, RelayState::On);
    assert_eq!(restored.ble_address, status.ble_address);
    assert_eq!(BridgeStatus::from_persisted(PersistedDongleState::default()).relay_state, RelayState::Off);
}

#[test]
fn bridge_status_follows_events() {
    let mut status = BridgeStatus::default();
    status.record_command_result(Some(RelayState::On));
    assert!(status.connected);
    assert_eq!(status.relay_state, RelayState::On);
    status.record_command_result(None);
    assert!(!status.connected);
    assert_eq!(status.relay_state, RelayState::On);
    status.record_notification(RelayState::Off);
    assert!(status.connected);
    assert!(!status.record_poll(false, PollOutcome::ConnectFailed));
    assert!(status.record_poll(true, PollOutcome::ConnectFailed));
    assert!(!status.connected);
    assert!(status.record_poll(true, PollOutcome::Synced { relay_state: RelayState::On, health: None, identity: None }));
    assert!(status.connected);
    assert!(status.record_poll(true, PollOutcome::StateReadFailed));
    assert!(!status.connected);
    assert_eq!(command_for_state(RelayState::On), RelayCommand::On);
    assert_eq!(command_for_state(RelayState::Off), RelayCommand::Off);
}

#[test]
fn connected_address_is_recorded() {
    let mut status = BridgeStatus::default();
    status.record_address(Some("AA:BB:CC:DD:EE:FF".to_string()));
    assert_eq!(status.ble_address.as_deref(), Some("AA:BB:CC:DD:EE:FF"));
    status.record_address(None);
    assert_eq!(status.ble_address.as_deref(), Some("AA:BB:CC:DD:EE:FF"));
    status.record_address(Some("11:22:33:44:55:66".to_string()));
    assert_eq!(status.ble_address.as_deref(), Some("11:22:33:44:55:66"));
}

#[test]
fn entries_come_out_in_key_order() {
    let mut map = DongleStates::new();
    map.insert("8899aabbccddeeff".into(), known(None, None));
    map.insert("0011223344556677".into(), known(None, Some(RelayState::On)));
    map.insert("4455667788990011".into(), known(None, Some(RelayState::Off)));
    map.insert("0011223344556677".into(), known(Some("AA:BB:CC:DD:EE:FF"), None));
    let keys: Vec<&str> = map.entries().iter().map(|e| e.0.as_str()).collect();
    assert_eq!(keys, vec!["0011223344556677", "4455667788990011", "8899aabbccddeeff"]);
    assert_eq!(map.entries()[0].1, known(Some("AA:BB:CC:DD:EE:FF"), None));
    let mut words = DongleStates::new();
    words.insert("b".into(), known(None, None));
    words.insert("ab".into(), known(None, None));
    words.insert("a".into(), known(None, None));
    words.insert("B".into(), known(None, None));
    let keys: Vec<&str> = words.entries().iter().map(|e| e.0.as_str()).collect();
    assert_eq!(keys, vec!["B", "a", "ab", "b"]);
}
