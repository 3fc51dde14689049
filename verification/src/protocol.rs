//! Wire format shared by the relay dongle firmware and the hub.

use vstd::prelude::*;

verus! {

/// Version byte carried in health and identity payloads.
pub const PROTOCOL_VERSION: u8 = 1;

/// Stem of the name under which a dongle advertises itself.
pub const DEVICE_NAME_PREFIX: &'static str = "dongle";

pub const SERVICE_UUID: &'static str = "0f0e0d0c-0b0a-4900-8100-001122334455";
pub const STATE_UUID: &'static str = "0f0e0d0c-0b0a-4900-8101-001122334455";
pub const COMMAND_UUID: &'static str = "0f0e0d0c-0b0a-4900-8102-001122334455";
pub const HEALTH_UUID: &'static str = "0f0e0d0c-0b0a-4900-8103-001122334455";
pub const IDENTITY_UUID: &'static str = "0f0e0d0c-0b0a-4900-8104-001122334455";

/// Little-endian bytes of a 32-bit word.
pub open spec fn le32(x: u32) -> Seq<u8> {
    seq![
        (x % 256) as u8,
        ((x / 256) % 256) as u8,
        ((x / 65536) % 256) as u8,
        (x / 16777216) as u8,
    ]
}

/// The 32-bit word whose little-endian bytes are `b[0..4]`.
pub open spec fn le32_value(b: Seq<u8>) -> u32
    recommends
        b.len() == 4,
{
    (b[0] + 256 * b[1] + 65536 * b[2] + 16777216 * b[3]) as u32
}

/// Decoding the encoding of a word gives the word back.
pub proof fn lemma_le32_roundtrip(x: u32)
    ensures
        le32_value(le32(x)) == x,
        le32(x).len() == 4,
{
    assert(x % 256 + 256 * ((x / 256) % 256) + 65536 * ((x / 65536) % 256) + 16777216 * (x
        / 16777216) == x) by (bit_vector);
    assert(x / 16777216 < 256) by (bit_vector);
}

/// Encoding the word read from four bytes gives the same four bytes.
pub proof fn lemma_le32_bytes_roundtrip(b: Seq<u8>)
    requires
        b.len() == 4,
    ensures
        le32(le32_value(b)) =~= b,
{
    let c0 = b[0] as u32;
    let c1 = b[1] as u32;
    let c2 = b[2] as u32;
    let c3 = b[3] as u32;
    assert(c0 + 256 * c1 + 65536 * c2 + 16777216 * c3 <= 0xffff_ffff) by (bit_vector)
        requires
            c0 < 256,
            c1 < 256,
            c2 < 256,
            c3 < 256,
    ;
    let x: u32 = (c0 + 256 * c1 + 65536 * c2 + 16777216 * c3) as u32;
    assert(x % 256 == c0 && (x / 256) % 256 == c1 && (x / 65536) % 256 == c2 && x / 16777216
        == c3) by (bit_vector)
        requires
            c0 < 256,
            c1 < 256,
            c2 < 256,
            c3 < 256,
            x == c0 + 256 * c1 + 65536 * c2 + 16777216 * c3,
    ;
}

pub(crate) fn encode_u32_le(x: u32) -> (out: (u8, u8, u8, u8))
    ensures
        seq![out.0, out.1, out.2, out.3] == le32(x),
{
    assert(x / 16777216 < 256) by (bit_vector);
    ((x % 256) as u8, ((x / 256) % 256) as u8, ((x / 65536) % 256) as u8, (x / 16777216) as u8)
}

fn decode_u32_le(b0: u8, b1: u8, b2: u8, b3: u8) -> (x: u32)
    ensures
        x == le32_value(seq![b0, b1, b2, b3]),
{
    let c0 = b0 as u32;
    let c1 = b1 as u32;
    let c2 = b2 as u32;
    let c3 = b3 as u32;
    assert(c0 + 256 * c1 + 65536 * c2 + 16777216 * c3 <= 0xffff_ffff) by (bit_vector)
        requires
            c0 < 256,
            c1 < 256,
            c2 < 256,
            c3 < 256,
    ;
    b0 as u32 + 256 * (b1 as u32) + 65536 * (b2 as u32) + 16777216 * (b3 as u32)
}

/// Commands written to the command characteristic.
#[derive(Debug, Clone, Copy, PartialEq, Eq, Structural)]
pub enum RelayCommand {
    Off,
    On,
    Toggle,
}

/// Position of the relay contacts.
#[derive(Debug, Clone, Copy, PartialEq, Eq, Structural)]
pub enum RelayState {
    Off,
    On,
}

/// Last error a dongle reports in its health payload.
#[derive(Debug, Clone, Copy, PartialEq, Eq, Structural)]
pub enum HealthCode {
    NoError,
    BleDisconnected,
    InternalError,
}

/// Why a payload could not be decoded.
#[derive(Debug, Clone, Copy, PartialEq, Eq, Structural)]
pub enum ProtocolError {
    WrongLength,
    InvalidCommand(u8),
    InvalidState(u8),
    InvalidHealth(u8),
}

impl RelayCommand {
    /// The byte that stands for this command on the wire.
    pub open spec fn wire_byte(self) -> u8 {
        match self {
            RelayCommand::Off => 0,
            RelayCommand::On => 1,
            RelayCommand::Toggle => 2,
        }
    }

    pub fn encode(self) -> (out: [u8; 1])
        ensures
            out@ == seq![self.wire_byte()],
    {
        let b: u8 = match self {
            RelayCommand::Off => 0,
            RelayCommand::On => 1,
            RelayCommand::Toggle => 2,
        };
        let out = [b];
        assert(out@ =~= seq![self.wire_byte()]);
        out
    }

    /// Reads a command payload: exactly one byte, 0, 1 or 2.
    pub fn decode(value: &[u8]) -> (r: Result<RelayCommand, ProtocolError>)
        ensures
            r == command_from_bytes(value@),
    {
        if value.len() != 1 {
            return Err(ProtocolError::WrongLength);
        }
        let b = value[0];
        if b == 0 {
            Ok(RelayCommand::Off)
        } else if b == 1 {
            Ok(RelayCommand::On)
        } else if b == 2 {
            Ok(RelayCommand::Toggle)
        } else {
            Err(ProtocolError::InvalidCommand(b))
        }
    }
}

/// What the command characteristic makes of the bytes written to it.
pub open spec fn command_from_bytes(b: Seq<u8>) -> Result<RelayCommand, ProtocolError> {
    if b.len() != 1 {
        Err(ProtocolError::WrongLength)
    } else if b[0] == 0 {
        Ok(RelayCommand::Off)
    } else if b[0] == 1 {
        Ok(RelayCommand::On)
    } else if b[0] == 2 {
        Ok(RelayCommand::Toggle)
    } else {
        Err(ProtocolError::InvalidCommand(b[0]))
    }
}

impl<'a> vstd::std_specs::convert::TryFromSpecImpl<&'a [u8]> for RelayCommand {
    open spec fn obeys_try_from_spec() -> bool {
        true
    }

    open spec fn try_from_spec(v: &'a [u8]) -> Result<Self, Self::Error> {
        command_from_bytes(v@)
    }
}

impl<'a> TryFrom<&'a [u8]> for RelayCommand {
    type Error = ProtocolError;

    fn try_from(value: &'a [u8]) -> (r: Result<Self, Self::Error>)
        ensures
            r == command_from_bytes(value@),
    {
        RelayCommand::decode(value)
    }
}

impl RelayState {
    /// The byte that stands for this state on the wire.
    pub open spec fn wire_byte(self) -> u8 {
        match self {
            RelayState::Off => 0,
            RelayState::On => 1,
        }
    }

    pub open spec fn is_on(self) -> bool {
        self == RelayState::On
    }

    pub fn as_bool(self) -> (b: bool)
        ensures
            b == self.is_on(),
    {
        matches!(self, RelayState::On)
    }

    pub fn from_bool(value: bool) -> (s: RelayState)
        ensures
            s.is_on() == value,
            s == (if value { RelayState::On } else { RelayState::Off }),
    {
        if value {
            RelayState::On
        } else {
            RelayState::Off
        }
    }

    pub open spec fn flipped(self) -> RelayState {
        match self {
            RelayState::Off => RelayState::On,
            RelayState::On => RelayState::Off,
        }
    }

    pub fn toggle(self) -> (s: RelayState)
        ensures
            s == self.flipped(),
            s != self,
            s.is_on() == !self.is_on(),
    {
        match self {
            RelayState::Off => RelayState::On,
            RelayState::On => RelayState::Off,
        }
    }

    pub fn encode(self) -> (out: [u8; 1])
        ensures
            out@ == seq![self.wire_byte()],
    {
        let b: u8 = match self {
            RelayState::Off => 0,
            RelayState::On => 1,
        };
        let out = [b];
        assert(out@ =~= seq![self.wire_byte()]);
        out
    }

    /// Reads a state payload: exactly one byte, 0 or 1.
    pub fn decode(value: &[u8]) -> (r: Result<RelayState, ProtocolError>)
        ensures
            r == state_from_bytes(value@),
    {
        if value.len() != 1 {
            return Err(ProtocolError::WrongLength);
        }
        let b = value[0];
        if b == 0 {
            Ok(RelayState::Off)
        } else if b == 1 {
            Ok(RelayState::On)
        } else {
            Err(ProtocolError::InvalidState(b))
        }
    }
}

/// What the state characteristic's bytes stand for.
pub open spec fn state_from_bytes(b: Seq<u8>) -> Result<RelayState, ProtocolError> {
    if b.len() != 1 {
        Err(ProtocolError::WrongLength)
    } else if b[0] == 0 {
        Ok(RelayState::Off)
    } else if b[0] == 1 {
        Ok(RelayState::On)
    } else {
        Err(ProtocolError::InvalidState(b[0]))
    }
}

impl<'a> vstd::std_specs::convert::TryFromSpecImpl<&'a [u8]> for RelayState {
    open spec fn obeys_try_from_spec() -> bool {
        true
    }

    open spec fn try_from_spec(v: &'a [u8]) -> Result<Self, Self::Error> {
        state_from_bytes(v@)
    }
}

impl<'a> TryFrom<&'a [u8]> for RelayState {
    type Error = ProtocolError;

    fn try_from(value: &'a [u8]) -> (r: Result<Self, Self::Error>)
        ensures
            r == state_from_bytes(value@),
    {
        RelayState::decode(value)
    }
}

impl HealthCode {
    pub open spec fn wire_byte(self) -> u8 {
        match self {
            HealthCode::NoError => 0,
            HealthCode::BleDisconnected => 1,
            HealthCode::InternalError => 2,
        }
    }
}

/// The health code that a byte stands for, if any.
pub open spec fn health_code_from_byte(b: u8) -> Option<HealthCode> {
    if b == 0 {
        Some(HealthCode::NoError)
    } else if b == 1 {
        Some(HealthCode::BleDisconnected)
    } else if b == 2 {
        Some(HealthCode::InternalError)
    } else {
        None
    }
}

/// Health report read from the health characteristic.
#[derive(Debug, Clone, Copy, PartialEq, Eq, Structural)]
pub struct HealthStatus {
    pub protocol_version: u8,
    pub boot_count: u32,
    pub uptime_seconds: u32,
    pub last_error: HealthCode,
}

impl HealthStatus {
    pub const ENCODED_LEN: usize = 10;

    /// Version byte, boot count and uptime little-endian, then the error code.
    pub open spec fn encoding(self) -> Seq<u8> {
        seq![self.protocol_version] + le32(self.boot_count) + le32(self.uptime_seconds) + seq![
            self.last_error.wire_byte(),
        ]
    }

    /// The status `new` builds.
    pub open spec fn new_spec(boot_count: u32, uptime_seconds: u32, last_error: HealthCode) -> HealthStatus {
        HealthStatus { protocol_version: PROTOCOL_VERSION, boot_count, uptime_seconds, last_error }
    }

    pub fn new(boot_count: u32, uptime_seconds: u32, last_error: HealthCode) -> (h: HealthStatus)
        ensures
            h == HealthStatus::new_spec(boot_count, uptime_seconds, last_error),
    {
        HealthStatus { protocol_version: PROTOCOL_VERSION, boot_count, uptime_seconds, last_error }
    }

    pub fn encode(&self) -> (out: [u8; 10])
        ensures
            out@ == self.encoding(),
            out@.len() == HealthStatus::ENCODED_LEN,
    {
        let (b0, b1, b2, b3) = encode_u32_le(self.boot_count);
        let (u0, u1, u2, u3) = encode_u32_le(self.uptime_seconds);
        let code: u8 = match self.last_error {
            HealthCode::NoError => 0,
            HealthCode::BleDisconnected => 1,
            HealthCode::InternalError => 2,
        };
        let out = [self.protocol_version, b0, b1, b2, b3, u0, u1, u2, u3, code];
        assert(out@ =~= self.encoding());
        out
    }

    /// Reads a health payload of exactly ten bytes.
    pub fn decode(value: &[u8]) -> (r: Result<HealthStatus, ProtocolError>)
        ensures
            r == health_from_bytes(value@),
    {
        if value.len() != 10 {
            return Err(ProtocolError::WrongLength);
        }
        let code = value[9];
        let last_error = if code == 0 {
            HealthCode::NoError
        } else if code == 1 {
            HealthCode::BleDisconnected
        } else if code == 2 {
            HealthCode::InternalError
        } else {
            return Err(ProtocolError::InvalidHealth(code));
        };
        let boot_count = decode_u32_le(value[1], value[2], value[3], value[4]);
        let uptime_seconds = decode_u32_le(value[5], value[6], value[7], value[8]);
        assert(value@.subrange(1, 5) =~= seq![value@[1], value@[2], value@[3], value@[4]]);
        assert(value@.subrange(5, 9) =~= seq![value@[5], value@[6], value@[7], value@[8]]);
        Ok(HealthStatus { protocol_version: value[0], boot_count, uptime_seconds, last_error })
    }
}

/// What a health payload stands for.
pub open spec fn health_from_bytes(b: Seq<u8>) -> Result<HealthStatus, ProtocolError> {
    if b.len() != 10 {
        Err(ProtocolError::WrongLength)
    } else {
        match health_code_from_byte(b[9]) {
            None => Err(ProtocolError::InvalidHealth(b[9])),
            Some(code) => Ok(
                HealthStatus {
                    protocol_version: b[0],
                    boot_count: le32_value(b.subrange(1, 5)),
                    uptime_seconds: le32_value(b.subrange(5, 9)),
                    last_error: code,
                },
            ),
        }
    }
}

impl<'a> vstd::std_specs::convert::TryFromSpecImpl<&'a [u8]> for HealthStatus {
    open spec fn obeys_try_from_spec() -> bool {
        true
    }

    open spec fn try_from_spec(v: &'a [u8]) -> Result<Self, Self::Error> {
        health_from_bytes(v@)
    }
}

impl<'a> TryFrom<&'a [u8]> for HealthStatus {
    type Error = ProtocolError;

    fn try_from(value: &'a [u8]) -> (r: Result<Self, Self::Error>)
        ensures
            r == health_from_bytes(value@),
    {
        HealthStatus::decode(value)
    }
}

/// Identity read from the identity characteristic.
#[derive(Debug, Clone, Copy, PartialEq, Eq)]
pub struct DeviceIdentity {
    pub protocol_version: u8,
    pub device_id: [u8; 8],
    pub firmware_version: [u8; 3],
}

impl DeviceIdentity {
    pub const ENCODED_LEN: usize = 12;

    /// Version byte, the eight device id bytes, then the three version bytes.
    pub open spec fn encoding(self) -> Seq<u8> {
        seq![self.protocol_version] + self.device_id@ + self.firmware_version@
    }

    pub fn new(device_id: [u8; 8], firmware_version: [u8; 3]) -> (d: DeviceIdentity)
        ensures
            d == (DeviceIdentity { protocol_version: PROTOCOL_VERSION, device_id, firmware_version }),
    {
        DeviceIdentity { protocol_version: PROTOCOL_VERSION, device_id, firmware_version }
    }

    pub fn encode(&self) -> (out: [u8; 12])
        ensures
            out@ == self.encoding(),
            out@.len() == DeviceIdentity::ENCODED_LEN,
    {
        let d = self.device_id;
        let f = self.firmware_version;
        let out = [
            self.protocol_version,
            d[0],
            d[1],
            d[2],
            d[3],
            d[4],
            d[5],
            d[6],
            d[7],
            f[0],
            f[1],
            f[2],
        ];
        assert(out@ =~= self.encoding());
        out
    }

    /// Reads an identity payload of exactly twelve bytes.
    pub fn decode(value: &[u8]) -> (r: Result<DeviceIdentity, ProtocolError>)
        ensures
            r == identity_from_bytes(value@),
            identity_decoded(value@, r),
    {
        if value.len() != 12 {
            return Err(ProtocolError::WrongLength);
        }
        let device_id = [
            value[1],
            value[2],
            value[3],
            value[4],
            value[5],
            value[6],
            value[7],
            value[8],
        ];
        let firmware_version = [value[9], value[10], value[11]];
        assert(device_id@ =~= value@.subrange(1, 9));
        assert(firmware_version@ =~= value@.subrange(9, 12));
        let id = DeviceIdentity { protocol_version: value[0], device_id, firmware_version };
        proof {
            let b = value@;
            assert(id.protocol_version == b[0] && id.device_id@ == b.subrange(1, 9)
                && id.firmware_version@ == b.subrange(9, 12));
            let c = choose|c: DeviceIdentity|
                c.protocol_version == b[0] && c.device_id@ == b.subrange(1, 9)
                    && c.firmware_version@ == b.subrange(9, 12);
            assert(c.device_id =~= id.device_id);
            assert(c.firmware_version =~= id.firmware_version);
            assert(c == id);
        }
        Ok(id)
    }
}

/// The identity that twelve bytes stand for; every other length is refused.
pub open spec fn identity_from_bytes(b: Seq<u8>) -> Result<DeviceIdentity, ProtocolError> {
    if b.len() != 12 {
        Err(ProtocolError::WrongLength)
    } else {
        Ok(
            choose|id: DeviceIdentity|
                id.protocol_version == b[0] && id.device_id@ == b.subrange(1, 9)
                    && id.firmware_version@ == b.subrange(9, 12),
        )
    }
}

/// `r` is what the identity characteristic's bytes `b` stand for: any twelve
/// bytes are an identity, every other length is refused.
pub open spec fn identity_decoded(b: Seq<u8>, r: Result<DeviceIdentity, ProtocolError>) -> bool {
    match r {
        Ok(id) => {
            &&& b.len() == 12
            &&& id.protocol_version == b[0]
            &&& id.device_id@ == b.subrange(1, 9)
            &&& id.firmware_version@ == b.subrange(9, 12)
        },
        Err(e) => b.len() != 12 && e == ProtocolError::WrongLength,
    }
}

impl<'a> vstd::std_specs::convert::TryFromSpecImpl<&'a [u8]> for DeviceIdentity {
    open spec fn obeys_try_from_spec() -> bool {
        true
    }

    open spec fn try_from_spec(v: &'a [u8]) -> Result<Self, Self::Error> {
        identity_from_bytes(v@)
    }
}

impl<'a> TryFrom<&'a [u8]> for DeviceIdentity {
    type Error = ProtocolError;

    fn try_from(value: &'a [u8]) -> (r: Result<Self, Self::Error>)
        ensures
            r == identity_from_bytes(value@),
            identity_decoded(value@, r),
    {
        DeviceIdentity::decode(value)
    }
}


/// Every command survives encoding and decoding.
pub proof fn lemma_command_roundtrip(c: RelayCommand)
    ensures
        command_from_bytes(seq![c.wire_byte()]) == Ok::<RelayCommand, ProtocolError>(c),
{
}

/// A payload accepted as a command is exactly that command's encoding.
pub proof fn lemma_command_bytes_roundtrip(b: Seq<u8>)
    ensures
        command_from_bytes(b) matches Ok(c) ==> seq![c.wire_byte()] =~= b,
{
}

/// Every relay state survives encoding and decoding.
pub proof fn lemma_state_roundtrip(s: RelayState)
    ensures
        state_from_bytes(seq![s.wire_byte()]) == Ok::<RelayState, ProtocolError>(s),
{
}

/// A payload accepted as a state is exactly that state's encoding.
pub proof fn lemma_state_bytes_roundtrip(b: Seq<u8>)
    ensures
        state_from_bytes(b) matches Ok(s) ==> seq![s.wire_byte()] =~= b,
{
}

/// Toggling twice restores the state, and `from_bool` inverts `is_on`.
pub proof fn lemma_toggle_involution(s: RelayState, b: bool)
    ensures
        s.flipped().flipped() == s,
        s.flipped() != s,
        (if s.is_on() { RelayState::On } else { RelayState::Off }) == s,
        (if b { RelayState::On } else { RelayState::Off }).is_on() == b,
{
}

/// Every health status survives encoding and decoding.
pub proof fn lemma_health_roundtrip(h: HealthStatus)
    ensures
        health_from_bytes(h.encoding()) == Ok::<HealthStatus, ProtocolError>(h),
{
    let b = h.encoding();
    lemma_le32_roundtrip(h.boot_count);
    lemma_le32_roundtrip(h.uptime_seconds);
    assert(b.subrange(1, 5) =~= le32(h.boot_count));
    assert(b.subrange(5, 9) =~= le32(h.uptime_seconds));
}

/// A payload accepted as a health status is exactly that status's encoding.
pub proof fn lemma_health_bytes_roundtrip(b: Seq<u8>)
    ensures
        health_from_bytes(b) matches Ok(h) ==> h.encoding() =~= b,
{
    if let Ok(h) = health_from_bytes(b) {
        lemma_le32_bytes_roundtrip(b.subrange(1, 5));
        lemma_le32_bytes_roundtrip(b.subrange(5, 9));
        assert(h.encoding() =~= b);
    }
}

/// Every identity survives encoding and decoding.
pub proof fn lemma_identity_roundtrip(id: DeviceIdentity)
    ensures
        identity_from_bytes(id.encoding()) == Ok::<DeviceIdentity, ProtocolError>(id),
{
    let b = id.encoding();
    assert(b.subrange(1, 9) =~= id.device_id@);
    assert(b.subrange(9, 12) =~= id.firmware_version@);
    let c = choose|c: DeviceIdentity|
        c.protocol_version == b[0] && c.device_id@ == b.subrange(1, 9) && c.firmware_version@
            == b.subrange(9, 12);
    assert(c.device_id =~= id.device_id);
    assert(c.firmware_version =~= id.firmware_version);
}

/// A payload accepted as an identity is exactly that identity's encoding.
pub proof fn lemma_identity_bytes_roundtrip(b: Seq<u8>)
    ensures
        identity_from_bytes(b) matches Ok(id) ==> id.encoding() =~= b,
{
    if b.len() == 12 {
        let w = DeviceIdentity {
            protocol_version: b[0],
            device_id: [b[1], b[2], b[3], b[4], b[5], b[6], b[7], b[8]],
            firmware_version: [b[9], b[10], b[11]],
        };
        assert(w.device_id@ =~= b.subrange(1, 9));
        assert(w.firmware_version@ =~= b.subrange(9, 12));
        let id = identity_from_bytes(b)->Ok_0;
        assert(id.encoding() =~= b);
    }
}

} // verus!
