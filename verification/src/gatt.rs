//! GATT view of the dongle: what each characteristic reads and accepts.

use vstd::prelude::*;
use crate::firmware::{command_outcome, reported_health, FirmwareApp, FirmwareStatus};
use crate::protocol::{
    command_from_bytes, DeviceIdentity, HealthCode, HealthStatus, ProtocolError, RelayCommand,
    RelayState, COMMAND_UUID, HEALTH_UUID, IDENTITY_UUID, SERVICE_UUID, STATE_UUID,
};

verus! {

/// Every UUID and payload the dongle's GATT service exposes at one moment.
pub struct GattSnapshot {
    pub service_uuid: &'static str,
    pub state_uuid: &'static str,
    pub command_uuid: &'static str,
    pub health_uuid: &'static str,
    pub identity_uuid: &'static str,
    pub state_payload: [u8; 1],
    pub health_payload: [u8; 10],
    pub identity_payload: [u8; 12],
}

impl GattSnapshot {
    /// The snapshot carries the service's UUIDs and the encodings of the given values.
    pub open spec fn describes(
        self,
        state: RelayState,
        health: HealthStatus,
        identity: DeviceIdentity,
    ) -> bool {
        &&& self.service_uuid == SERVICE_UUID
        &&& self.state_uuid == STATE_UUID
        &&& self.command_uuid == COMMAND_UUID
        &&& self.health_uuid == HEALTH_UUID
        &&& self.identity_uuid == IDENTITY_UUID
        &&& self.state_payload@ == seq![state.wire_byte()]
        &&& self.health_payload@ == health.encoding()
        &&& self.identity_payload@ == identity.encoding()
    }
}

#[derive(Debug, Clone, Copy, PartialEq, Eq, Structural)]
pub enum GattCharacteristic {
    State,
    Command,
    Health,
    Identity,
}

#[derive(Debug, Clone, PartialEq, Eq)]
pub enum GattValue {
    State([u8; 1]),
    Health([u8; 10]),
    Identity([u8; 12]),
}

/// A state change waiting to be notified to the connected central.
#[derive(Debug, Clone, Copy, PartialEq, Eq)]
pub struct StateNotification {
    pub state: RelayState,
    pub payload: [u8; 1],
}

impl StateNotification {
    /// The notification announces `state` with its one-byte encoding.
    pub open spec fn announces(self, state: RelayState) -> bool {
        self.state == state && self.payload@ == seq![state.wire_byte()]
    }
}

#[derive(Debug, Clone, Copy, PartialEq, Eq)]
pub enum GattAccessError {
    NotReadable(GattCharacteristic),
    NotWritable(GattCharacteristic),
    Protocol(ProtocolError),
}

/// `r` is what reading characteristic `c` returns on a dongle in `status`
/// with identity `identity`.
pub open spec fn read_answers(
    c: GattCharacteristic,
    status: FirmwareStatus,
    identity: DeviceIdentity,
    r: Result<GattValue, GattAccessError>,
) -> bool {
    match c {
        GattCharacteristic::State => r matches Ok(GattValue::State(p)) && p@ == seq![
            status.relay_state.wire_byte(),
        ],
        GattCharacteristic::Health => r matches Ok(GattValue::Health(p)) && p@ == reported_health(
            status,
        ).encoding(),
        GattCharacteristic::Identity => r matches Ok(GattValue::Identity(p)) && p@
            == identity.encoding(),
        GattCharacteristic::Command => r == Err::<GattValue, GattAccessError>(
            GattAccessError::NotReadable(GattCharacteristic::Command),
        ),
    }
}

/// The dongle's GATT server: answers reads, applies command writes and holds
/// the state notification a write produces until it is sent.
pub struct FirmwareGattServer {
    pending_state_notification: Option<StateNotification>,
}

impl FirmwareGattServer {
    /// The notification waiting to be sent, if any.
    pub closed spec fn pending(&self) -> Option<StateNotification> {
        self.pending_state_notification
    }

    pub fn new() -> (s: FirmwareGattServer)
        ensures
            s.pending() == None::<StateNotification>,
    {
        FirmwareGattServer { pending_state_notification: None }
    }

    pub fn snapshot(&self, app: &FirmwareApp) -> (s: GattSnapshot)
        ensures
            s.describes(app@.relay_state, reported_health(app@), app.spec_identity()),
    {
        GattModel::snapshot(app.relay_state(), &app.health_status(), app.identity())
    }

    /// Reads a characteristic; the command characteristic is write-only.
    pub fn read(&self, characteristic: GattCharacteristic, app: &FirmwareApp) -> (r: Result<
        GattValue,
        GattAccessError,
    >)
        ensures
            read_answers(characteristic, app@, app.spec_identity(), r),
    {
        match characteristic {
            GattCharacteristic::State => Ok(GattValue::State(app.relay_state().encode())),
            GattCharacteristic::Health => Ok(GattValue::Health(app.health_status().encode())),
            GattCharacteristic::Identity => Ok(GattValue::Identity(app.identity().encode())),
            GattCharacteristic::Command => Err(GattAccessError::NotReadable(characteristic)),
        }
    }

    /// Writes a characteristic. Only the command characteristic accepts writes;
    /// a valid command drives the relay and queues a state notification.
    pub fn write(
        &mut self,
        characteristic: GattCharacteristic,
        payload: &[u8],
        app: &mut FirmwareApp,
    ) -> (r: Result<RelayState, GattAccessError>)
        ensures
            characteristic != GattCharacteristic::Command ==> {
                &&& r == Err::<RelayState, GattAccessError>(
                    GattAccessError::NotWritable(characteristic),
                )
                &&& *final(app) == *old(app)
                &&& final(self).pending() == old(self).pending()
            },
            characteristic == GattCharacteristic::Command ==> match command_from_bytes(payload@) {
                Err(e) => {
                    &&& r == Err::<RelayState, GattAccessError>(GattAccessError::Protocol(e))
                    &&& *final(app) == *old(app)
                    &&& final(self).pending() == old(self).pending()
                },
                Ok(command) => {
                    let next = command_outcome(old(app)@.relay_state, command);
                    &&& r == Ok::<RelayState, GattAccessError>(next)
                    &&& final(app)@ == (FirmwareStatus { relay_state: next, ..old(app)@ })
                    &&& final(app).spec_identity() == old(app).spec_identity()
                    &&& final(self).pending() matches Some(n) && n.announces(next)
                },
            },
    {
        if !matches!(characteristic, GattCharacteristic::Command) {
            return Err(GattAccessError::NotWritable(characteristic));
        }
        let command = match RelayCommand::decode(payload) {
            Ok(command) => command,
            Err(e) => return Err(GattAccessError::Protocol(e)),
        };
        let next_state = app.apply_command(command);
        self.pending_state_notification = Some(
            StateNotification { state: next_state, payload: next_state.encode() },
        );
        Ok(next_state)
    }

    /// Hands out the queued notification, leaving none behind.
    pub fn take_notification(&mut self) -> (n: Option<StateNotification>)
        ensures
            n == old(self).pending(),
            final(self).pending() == None::<StateNotification>,
    {
        self.pending_state_notification.take()
    }
}

/// Stateless view of the GATT service for callers that hold the values themselves.
pub struct GattModel;

impl GattModel {
    pub fn snapshot(state: RelayState, health: &HealthStatus, identity: &DeviceIdentity) -> (s:
        GattSnapshot)
        ensures
            s.describes(state, *health, *identity),
    {
        GattSnapshot {
            service_uuid: SERVICE_UUID,
            state_uuid: STATE_UUID,
            command_uuid: COMMAND_UUID,
            health_uuid: HEALTH_UUID,
            identity_uuid: IDENTITY_UUID,
            state_payload: state.encode(),
            health_payload: health.encode(),
            identity_payload: identity.encode(),
        }
    }

    pub fn decode_command(payload: &[u8]) -> (r: Result<RelayCommand, ProtocolError>)
        ensures
            r == command_from_bytes(payload@),
    {
        RelayCommand::decode(payload)
    }
}


/// ATT error codes a refused request is answered with.
#[derive(Debug, Clone, Copy, PartialEq, Eq, Structural)]
pub enum AttRejection {
    ReadNotPermitted,
    WriteNotPermitted,
    ValueNotAllowed,
}

/// The ATT error that answers an access error.
pub open spec fn rejection_for(e: GattAccessError) -> AttRejection {
    match e {
        GattAccessError::NotReadable(_) => AttRejection::ReadNotPermitted,
        GattAccessError::NotWritable(_) => AttRejection::WriteNotPermitted,
        GattAccessError::Protocol(_) => AttRejection::ValueNotAllowed,
    }
}

pub fn map_read_error(error: GattAccessError) -> (a: AttRejection)
    ensures
        a == rejection_for(error),
{
    match error {
        GattAccessError::NotReadable(_) => AttRejection::ReadNotPermitted,
        GattAccessError::NotWritable(_) => AttRejection::WriteNotPermitted,
        GattAccessError::Protocol(_) => AttRejection::ValueNotAllowed,
    }
}

pub fn map_write_error(error: GattAccessError) -> (a: AttRejection)
    ensures
        a == rejection_for(error),
{
    match error {
        GattAccessError::NotReadable(_) => AttRejection::ReadNotPermitted,
        GattAccessError::NotWritable(_) => AttRejection::WriteNotPermitted,
        GattAccessError::Protocol(_) => AttRejection::ValueNotAllowed,
    }
}

/// Largest command write the server copies out of a write request.
pub const MAX_WRITE_LEN: usize = 8;

/// A request the BLE host hands to the GATT server.
pub enum GattRequest {
    /// A read of one of the service's characteristics.
    Read(GattCharacteristic),
    /// A write to the command characteristic, with its offset and bytes.
    Write { offset: usize, data: Vec<u8> },
    /// Anything else the host reports (reads or writes of other attributes).
    Other,
}

/// How the server answers a request, and what the caller must do for it.
#[derive(Debug, Clone, PartialEq, Eq)]
pub enum GattReply {
    /// Answer the read with this value.
    Value(GattValue),
    /// Accept the write: drive the relay output to `state`, light the status
    /// LED when it is on, and notify the `notify` byte when there is one.
    Applied { state: RelayState, notify: Option<u8> },
    /// Refuse the request with this ATT error.
    Reject(AttRejection),
    /// Accept the request without further action.
    Accept,
}

/// The bytes of a write request that the server treats as the command: the
/// whole write when it starts at offset zero and fits, nothing otherwise.
pub open spec fn command_payload(offset: usize, data: Seq<u8>) -> Seq<u8> {
    if offset == 0 && data.len() <= MAX_WRITE_LEN {
        data
    } else {
        Seq::empty()
    }
}

/// Answers one request from the BLE host, updating the relay state machine
/// for command writes.
pub fn handle_gatt_request(
    gatt: &mut FirmwareGattServer,
    app: &mut FirmwareApp,
    request: GattRequest,
) -> (reply: GattReply)
    ensures
        match request {
            GattRequest::Read(c) => {
                &&& *final(app) == *old(app)
                &&& final(gatt).pending() == old(gatt).pending()
                &&& c == GattCharacteristic::Command ==> reply == GattReply::Accept
                &&& c != GattCharacteristic::Command ==> (reply matches GattReply::Value(v)
                    && read_answers(c, old(app)@, old(app).spec_identity(), Ok(v)))
            },
            GattRequest::Write { offset, data } => match command_from_bytes(
                command_payload(offset, data@),
            ) {
                Err(e) => {
                    &&& reply == GattReply::Reject(rejection_for(GattAccessError::Protocol(e)))
                    &&& *final(app) == *old(app)
                    &&& final(gatt).pending() == old(gatt).pending()
                },
                Ok(command) => {
                    let next = command_outcome(old(app)@.relay_state, command);
                    &&& reply == GattReply::Applied { state: next, notify: Some(next.wire_byte()) }
                    &&& final(app)@ == (FirmwareStatus { relay_state: next, ..old(app)@ })
                    &&& final(app).spec_identity() == old(app).spec_identity()
                    &&& final(gatt).pending() == None::<StateNotification>
                },
            },
            GattRequest::Other => {
                &&& reply == GattReply::Accept
                &&& *final(app) == *old(app)
                &&& final(gatt).pending() == old(gatt).pending()
            },
        },
{
    match request {
        GattRequest::Read(c) => {
            if matches!(c, GattCharacteristic::Command) {
                return GattReply::Accept;
            }
            match gatt.read(c, app) {
                Ok(value) => GattReply::Value(value),
                Err(error) => GattReply::Reject(map_read_error(error)),
            }
        },
        GattRequest::Write { offset, data } => {
            let empty: Vec<u8> = Vec::new();
            let payload: &[u8] = if offset == 0 && data.len() <= MAX_WRITE_LEN {
                data.as_slice()
            } else {
                empty.as_slice()
            };
            assert(payload@ == command_payload(offset, data@));
            match gatt.write(GattCharacteristic::Command, payload, app) {
                Ok(next_state) => {
                    let notify = match gatt.take_notification() {
                        Some(n) => Some(n.payload[0]),
                        None => None,
                    };
                    GattReply::Applied { state: next_state, notify }
                },
                Err(error) => GattReply::Reject(map_write_error(error)),
            }
        },
        GattRequest::Other => GattReply::Accept,
    }
}

/// Connection events that the dongle records in its health report.
#[derive(Debug, Clone, Copy, PartialEq, Eq, Structural)]
pub enum LinkEvent {
    /// Advertising or accepting a connection failed.
    AdvertiseFailed,
    /// The central disconnected.
    Disconnected,
    /// A connection ended without error.
    SessionEnded,
    /// A connection ended with an error.
    SessionFailed,
    /// Sending a state notification failed.
    NotifyFailed,
    /// Sending a reply to a request failed.
    ReplyFailed,
}

/// The health code a link event leaves behind.
pub open spec fn link_event_code(event: LinkEvent) -> HealthCode {
    match event {
        LinkEvent::Disconnected => HealthCode::BleDisconnected,
        LinkEvent::SessionEnded => HealthCode::NoError,
        _ => HealthCode::InternalError,
    }
}

/// Records a link event as the dongle's last error.
pub fn record_link_event(app: &mut FirmwareApp, event: LinkEvent)
    ensures
        final(app)@ == (FirmwareStatus { last_error: link_event_code(event), ..old(app)@ }),
        final(app).spec_identity() == old(app).spec_identity(),
{
    let code = match event {
        LinkEvent::Disconnected => HealthCode::BleDisconnected,
        LinkEvent::SessionEnded => HealthCode::NoError,
        _ => HealthCode::InternalError,
    };
    app.set_last_error(code);
}

/// Brings the uptime up to date from the seconds since boot (kept modulo
/// 2^32, as a 32-bit counter) and returns the state the relay output must show.
pub fn sync_runtime(app: &mut FirmwareApp, seconds_since_boot: u64) -> (s: RelayState)
    ensures
        final(app)@ == (FirmwareStatus {
            uptime_seconds: (seconds_since_boot % 0x1_0000_0000) as u32,
            ..old(app)@
        }),
        final(app).spec_identity() == old(app).spec_identity(),
        s == old(app)@.relay_state,
{
    let uptime = (seconds_since_boot % 0x1_0000_0000) as u32;
    app.set_uptime_seconds(uptime);
    app.relay_state()
}

/// A successful command write is read back from the state characteristic and
/// announced by the queued notification with the same byte.
pub proof fn lemma_write_then_read(
    status: FirmwareStatus,
    identity: DeviceIdentity,
    command: RelayCommand,
    r: Result<GattValue, GattAccessError>,
    n: StateNotification,
)
    requires
        read_answers(
            GattCharacteristic::State,
            FirmwareStatus { relay_state: command_outcome(status.relay_state, command), ..status },
            identity,
            r,
        ),
        n.announces(command_outcome(status.relay_state, command)),
    ensures
        r matches Ok(GattValue::State(p)) && p@ == n.payload@,
        crate::protocol::state_from_bytes(n.payload@) == Ok::<RelayState, ProtocolError>(
            command_outcome(status.relay_state, command),
        ),
{
}

/// Reads never change the relay, and only the command characteristic refuses them.
pub proof fn lemma_read_refusals(
    c: GattCharacteristic,
    status: FirmwareStatus,
    identity: DeviceIdentity,
    r: Result<GattValue, GattAccessError>,
)
    requires
        read_answers(c, status, identity, r),
    ensures
        r is Err <==> c == GattCharacteristic::Command,
{
}

} // verus!
