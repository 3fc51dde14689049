//! The hub's record of one bridged dongle, and how events update it.

use vstd::prelude::*;
use crate::ble::clone_address;
use crate::persistence::PersistedDongleState;
use crate::protocol::{DeviceIdentity, HealthStatus, RelayCommand, RelayState};

verus! {

/// What the hub knows about one dongle.
#[derive(Debug)]
pub struct BridgeStatus {
    pub ble_address: Option<String>,
    pub connected: bool,
    pub relay_state: RelayState,
    pub health: Option<HealthStatus>,
    pub identity: Option<DeviceIdentity>,
}

impl Default for BridgeStatus {
    fn default() -> (s: BridgeStatus)
        ensures
            s == (BridgeStatus {
                ble_address: None,
                connected: false,
                relay_state: RelayState::Off,
                health: None,
                identity: None,
            }),
    {
        BridgeStatus {
            ble_address: None,
            connected: false,
            relay_state: RelayState::Off,
            health: None,
            identity: None,
        }
    }
}

impl Clone for BridgeStatus {
    fn clone(&self) -> (s: BridgeStatus)
        ensures
            s == *self,
    {
        BridgeStatus {
            ble_address: clone_address(&self.ble_address),
            connected: self.connected,
            relay_state: self.relay_state,
            health: self.health,
            identity: self.identity,
        }
    }
}

/// The command that puts the relay in the requested state.
pub open spec fn command_for(state: RelayState) -> RelayCommand {
    match state {
        RelayState::Off => RelayCommand::Off,
        RelayState::On => RelayCommand::On,
    }
}

pub fn command_for_state(state: RelayState) -> (c: RelayCommand)
    ensures
        c == command_for(state),
        crate::firmware::command_outcome(RelayState::Off, c) == state,
        crate::firmware::command_outcome(RelayState::On, c) == state,
{
    match state {
        RelayState::Off => RelayCommand::Off,
        RelayState::On => RelayCommand::On,
    }
}

/// What one round of the background link check found.
pub enum PollOutcome {
    /// Connecting failed.
    ConnectFailed,
    /// Connected, but reading the relay state failed.
    StateReadFailed,
    /// Connected and read the relay state, and whatever health and identity could be read.
    Synced { relay_state: RelayState, health: Option<HealthStatus>, identity: Option<DeviceIdentity> },
}

impl BridgeStatus {
    /// The status a bridge starts from: what was persisted, not yet connected,
    /// the relay taken as off when no state was saved.
    pub open spec fn restored(p: PersistedDongleState) -> BridgeStatus {
        BridgeStatus {
            ble_address: p.last_seen_ble_address,
            connected: false,
            relay_state: match p.last_relay_state {
                Some(s) => s,
                None => RelayState::Off,
            },
            health: p.health,
            identity: p.identity,
        }
    }

    pub fn from_persisted(persisted: PersistedDongleState) -> (s: BridgeStatus)
        ensures
            s == BridgeStatus::restored(persisted),
    {
        BridgeStatus {
            ble_address: persisted.last_seen_ble_address,
            connected: false,
            relay_state: match persisted.last_relay_state {
                Some(s) => s,
                None => RelayState::Off,
            },
            health: persisted.health,
            identity: persisted.identity,
        }
    }

    /// Records the outcome of a command: the state it left on success; a
    /// failure means the link is down.
    pub fn record_command_result(&mut self, result: Option<RelayState>)
        ensures
            match result {
                Some(next) => *final(self) == (BridgeStatus {
                    connected: true,
                    relay_state: next,
                    ..*old(self)
                }),
                None => *final(self) == (BridgeStatus { connected: false, ..*old(self) }),
            },
    {
        match result {
            Some(next) => {
                self.connected = true;
                self.relay_state = next;
            },
            None => {
                self.connected = false;
            },
        }
    }

    /// Records a state notification from the dongle.
    pub fn record_notification(&mut self, state: RelayState)
        ensures
            *final(self) == (BridgeStatus { connected: true, relay_state: state, ..*old(self) }),
    {
        self.connected = true;
        self.relay_state = state;
    }

    /// Records a full read of the dongle after connecting.
    pub fn record_sync(
        &mut self,
        relay_state: RelayState,
        health: Option<HealthStatus>,
        identity: Option<DeviceIdentity>,
    )
        ensures
            *final(self) == (BridgeStatus {
                connected: true,
                relay_state,
                health,
                identity,
                ..*old(self)
            }),
    {
        self.connected = true;
        self.relay_state = relay_state;
        self.health = health;
        self.identity = identity;
    }

    /// Records the address the connected dongle was reached at; an unknown
    /// address keeps the last one seen.
    pub fn record_address(&mut self, address: Option<String>)
        ensures
            match address {
                Some(a) => *final(self) == (BridgeStatus { ble_address: Some(a), ..*old(self) }),
                None => *final(self) == *old(self),
            },
    {
        if let Some(a) = address {
            self.ble_address = Some(a);
        }
    }

    /// Records one round of the background link check and says whether the
    /// new status must be published. A failed connection is published only
    /// when it ends a connection; every other outcome is published.
    pub fn record_poll(&mut self, was_connected: bool, outcome: PollOutcome) -> (publish: bool)
        ensures
            match outcome {
                PollOutcome::ConnectFailed => {
                    &&& publish == was_connected
                    &&& was_connected ==> *final(self) == (BridgeStatus {
                        connected: false,
                        ..*old(self)
                    })
                    &&& !was_connected ==> *final(self) == *old(self)
                },
                PollOutcome::StateReadFailed => {
                    &&& publish
                    &&& *final(self) == (BridgeStatus { connected: false, ..*old(self) })
                },
                PollOutcome::Synced { relay_state, health, identity } => {
                    &&& publish
                    &&& *final(self) == (BridgeStatus {
                        connected: true,
                        relay_state,
                        health,
                        identity,
                        ..*old(self)
                    })
                },
            },
    {
        match outcome {
            PollOutcome::ConnectFailed => {
                if was_connected {
                    self.connected = false;
                }
                was_connected
            },
            PollOutcome::StateReadFailed => {
                self.connected = false;
                true
            },
            PollOutcome::Synced { relay_state, health, identity } => {
                self.record_sync(relay_state, health, identity);
                true
            },
        }
    }
}

/// Restoring a persisted state and recording it again gives it back, with an
/// unknown relay state read as off.
pub proof fn lemma_restore_then_record(p: PersistedDongleState)
    ensures
        PersistedDongleState::of_status(BridgeStatus::restored(p)) == (PersistedDongleState {
            last_relay_state: Some(
                match p.last_relay_state {
                    Some(s) => s,
                    None => RelayState::Off,
                },
            ),
            ..p
        }),
        p.last_relay_state is Some ==> PersistedDongleState::of_status(BridgeStatus::restored(p))
            == p,
{
}

/// Recording a status and restoring it gives the status back, disconnected.
pub proof fn lemma_record_then_restore(s: BridgeStatus)
    ensures
        BridgeStatus::restored(PersistedDongleState::of_status(s)) == (BridgeStatus {
            connected: false,
            ..s
        }),
{
}

} // verus!
