//! Relay state machine that runs on the dongle.

use vstd::prelude::*;
use crate::protocol::{DeviceIdentity, HealthCode, HealthStatus, RelayCommand, RelayState, PROTOCOL_VERSION};

verus! {

/// Snapshot of everything the dongle reports besides its identity.
#[derive(Debug, Clone, Copy, PartialEq, Eq, Structural)]
pub struct FirmwareStatus {
    pub relay_state: RelayState,
    pub boot_count: u32,
    pub uptime_seconds: u32,
    pub last_error: HealthCode,
}

/// The state a relay is left in after a command.
pub open spec fn command_outcome(current: RelayState, command: RelayCommand) -> RelayState {
    match command {
        RelayCommand::Off => RelayState::Off,
        RelayCommand::On => RelayState::On,
        RelayCommand::Toggle => current.flipped(),
    }
}

/// `a + b`, held at `u32::MAX`.
pub open spec fn saturating_sum(a: u32, b: u32) -> u32 {
    if a + b > u32::MAX {
        u32::MAX
    } else {
        (a + b) as u32
    }
}

/// The health report for a status snapshot.
pub open spec fn reported_health(s: FirmwareStatus) -> HealthStatus {
    HealthStatus {
        protocol_version: PROTOCOL_VERSION,
        boot_count: s.boot_count,
        uptime_seconds: s.uptime_seconds,
        last_error: s.last_error,
    }
}

pub struct FirmwareApp {
    relay_state: RelayState,
    boot_count: u32,
    uptime_seconds: u32,
    last_error: HealthCode,
    identity: DeviceIdentity,
}

impl View for FirmwareApp {
    type V = FirmwareStatus;

    closed spec fn view(&self) -> FirmwareStatus {
        FirmwareStatus {
            relay_state: self.relay_state,
            boot_count: self.boot_count,
            uptime_seconds: self.uptime_seconds,
            last_error: self.last_error,
        }
    }
}

impl FirmwareApp {
    /// The identity the dongle was built with.
    pub closed spec fn spec_identity(&self) -> DeviceIdentity {
        self.identity
    }

    /// A freshly booted dongle: relay off, first boot, no uptime, no error.
    pub fn new(device_id: [u8; 8], firmware_version: [u8; 3]) -> (app: FirmwareApp)
        ensures
            app@ == (FirmwareStatus {
                relay_state: RelayState::Off,
                boot_count: 1,
                uptime_seconds: 0,
                last_error: HealthCode::NoError,
            }),
            app.spec_identity() == (DeviceIdentity {
                protocol_version: PROTOCOL_VERSION,
                device_id,
                firmware_version,
            }),
    {
        FirmwareApp {
            relay_state: RelayState::Off,
            boot_count: 1,
            uptime_seconds: 0,
            last_error: HealthCode::NoError,
            identity: DeviceIdentity::new(device_id, firmware_version),
        }
    }

    /// Drives the relay: `Off` and `On` set it, `Toggle` flips it.
    pub fn apply_command(&mut self, command: RelayCommand) -> (next: RelayState)
        ensures
            next == command_outcome(old(self)@.relay_state, command),
            final(self)@ == (FirmwareStatus { relay_state: next, ..old(self)@ }),
            final(self).spec_identity() == old(self).spec_identity(),
    {
        self.relay_state = match command {
            RelayCommand::Off => RelayState::Off,
            RelayCommand::On => RelayState::On,
            RelayCommand::Toggle => self.relay_state.toggle(),
        };
        self.relay_state
    }

    /// Adds elapsed seconds to the uptime, holding it at `u32::MAX`.
    pub fn tick(&mut self, elapsed_seconds: u32)
        ensures
            final(self)@ == (FirmwareStatus {
                uptime_seconds: saturating_sum(old(self)@.uptime_seconds, elapsed_seconds),
                ..old(self)@
            }),
            final(self).spec_identity() == old(self).spec_identity(),
    {
        self.uptime_seconds = self.uptime_seconds.saturating_add(elapsed_seconds);
    }

    /// Replaces the uptime with a value measured elsewhere.
    pub fn set_uptime_seconds(&mut self, uptime_seconds: u32)
        ensures
            final(self)@ == (FirmwareStatus { uptime_seconds, ..old(self)@ }),
            final(self).spec_identity() == old(self).spec_identity(),
    {
        self.uptime_seconds = uptime_seconds;
    }

    pub fn set_last_error(&mut self, error: HealthCode)
        ensures
            final(self)@ == (FirmwareStatus { last_error: error, ..old(self)@ }),
            final(self).spec_identity() == old(self).spec_identity(),
    {
        self.last_error = error;
    }

    pub fn relay_state(&self) -> (s: RelayState)
        ensures
            s == self@.relay_state,
    {
        self.relay_state
    }

    /// The health payload the dongle currently reports.
    pub fn health_status(&self) -> (h: HealthStatus)
        ensures
            h == reported_health(self@),
    {
        HealthStatus::new(self.boot_count, self.uptime_seconds, self.last_error)
    }

    pub fn identity(&self) -> (id: &DeviceIdentity)
        ensures
            *id == self.spec_identity(),
    {
        &self.identity
    }

    pub fn snapshot(&self) -> (s: FirmwareStatus)
        ensures
            s == self@,
    {
        FirmwareStatus {
            relay_state: self.relay_state,
            boot_count: self.boot_count,
            uptime_seconds: self.uptime_seconds,
            last_error: self.last_error,
        }
    }
}

/// `On` and `Off` commands set the relay whatever its state; `Toggle` applied
/// twice leaves it where it was.
pub proof fn lemma_command_outcomes(s: RelayState)
    ensures
        command_outcome(s, RelayCommand::On) == RelayState::On,
        command_outcome(s, RelayCommand::Off) == RelayState::Off,
        command_outcome(command_outcome(s, RelayCommand::Toggle), RelayCommand::Toggle) == s,
        command_outcome(s, RelayCommand::Toggle) != s,
{
}

/// Commands are idempotent except `Toggle`: applying `On` or `Off` a second
/// time changes nothing.
pub proof fn lemma_set_commands_idempotent(s: RelayState, c: RelayCommand)
    requires
        c != RelayCommand::Toggle,
    ensures
        command_outcome(command_outcome(s, c), c) == command_outcome(s, c),
{
}

/// Uptime never goes backwards under `tick`.
pub proof fn lemma_tick_monotone(uptime: u32, elapsed: u32)
    ensures
        saturating_sum(uptime, elapsed) >= uptime,
        uptime as int + elapsed as int <= u32::MAX ==> saturating_sum(uptime, elapsed) == uptime
            + elapsed,
{
}


impl FirmwareApp {
    /// One second of the stand-alone firmware's heartbeat: the uptime advances
    /// by a second and the relay toggles.
    pub fn heartbeat(&mut self) -> (next: RelayState)
        ensures
            next == old(self)@.relay_state.flipped(),
            final(self)@ == (FirmwareStatus {
                relay_state: next,
                uptime_seconds: saturating_sum(old(self)@.uptime_seconds, 1),
                ..old(self)@
            }),
            final(self).spec_identity() == old(self).spec_identity(),
    {
        self.tick(1);
        self.apply_command(RelayCommand::Toggle)
    }
}

} // verus!
