//! Hub-side BLE logic: payload decoding, address normalisation, dongle
//! recognition, and the in-memory dongle used to exercise bridges.

use vstd::prelude::*;
use crate::device_id::{hex_digit, hex_char};
use crate::protocol::{
    health_from_bytes, identity_from_bytes, state_from_bytes, DeviceIdentity, HealthCode,
    HealthStatus, ProtocolError, RelayCommand, RelayState, COMMAND_UUID,
    HEALTH_UUID, IDENTITY_UUID, SERVICE_UUID, STATE_UUID,
};
use crate::firmware::command_outcome;
use crate::text::{ascii_lowered, eq_ignore_ascii_case, owned, push_char, trim_str, trimmed};

verus! {

/// A relay state change reported by a dongle.
#[derive(Debug, Clone, Copy, PartialEq, Eq, Structural)]
pub struct BleNotification {
    pub state: RelayState,
}

/// Errors of the hub's BLE side that the library decides on.
#[derive(Debug, Clone, Copy, PartialEq, Eq)]
pub enum BleError {
    /// A UUID constant did not parse.
    InvalidUuid,
    /// A characteristic value was shorter than its payload.
    PayloadTooShort { label: &'static str, expected: usize, actual: usize },
    /// A payload did not decode.
    Protocol(ProtocolError),
    /// The dongle is not connected.
    Disconnected,
    /// Connecting to the dongle failed.
    ConnectFailed,
}

#[verifier::external_type_specification]
#[verifier::external_body]
pub struct ExUuidError(uuid::Error);

/// The 128-bit value of the UUID that `uuid::Uuid::parse_str` reads from a
/// text, or `None` where it refuses the text.
pub uninterp spec fn uuid_from_text(text: Seq<char>) -> Option<u128>;

/// `uuid::Uuid::parse_str` followed by `Uuid::as_u128`.
#[verifier::external_body]
fn parse_uuid_text(input: &str) -> (r: Result<u128, uuid::Error>)
    ensures
        match r {
            Ok(v) => uuid_from_text(input@) == Some(v),
            Err(_) => uuid_from_text(input@) == None::<u128>,
        },
{
    match uuid::Uuid::parse_str(input) {
        Ok(u) => Ok(u.as_u128()),
        Err(e) => Err(e),
    }
}

/// Reads a UUID as its 128-bit value.
pub fn parse_uuid(input: &str) -> (r: Result<u128, BleError>)
    ensures
        match uuid_from_text(input@) {
            Some(v) => r == Ok::<u128, BleError>(v),
            None => r == Err::<u128, BleError>(BleError::InvalidUuid),
        },
{
    match parse_uuid_text(input) {
        Ok(v) => Ok(v),
        Err(_) => Err(BleError::InvalidUuid),
    }
}

/// Characteristic values may carry trailing bytes; the payload is the first
/// `N` of them, and a shorter value is refused.
pub fn decode_exact_or_prefix<'a, const N: usize>(value: &'a [u8], label: &'static str) -> (r:
    Result<&'a [u8], BleError>)
    ensures
        value@.len() < N ==> r == Err::<&'a [u8], BleError>(
            BleError::PayloadTooShort { label, expected: N, actual: value@.len() as usize },
        ),
        value@.len() >= N ==> (r matches Ok(p) && p@ == value@.take(N as int)),
{
    if value.len() < N {
        return Err(BleError::PayloadTooShort { label, expected: N, actual: value.len() });
    }
    let p = vstd::slice::slice_subrange(value, 0, N);
    assert(p@ =~= value@.take(N as int));
    Ok(p)
}

/// The relay state a state characteristic value stands for.
pub open spec fn state_from_value(v: Seq<u8>) -> Result<RelayState, BleError> {
    if v.len() < 1 {
        Err(BleError::PayloadTooShort { label: "state", expected: 1, actual: v.len() as usize })
    } else {
        match state_from_bytes(v.take(1)) {
            Ok(s) => Ok(s),
            Err(e) => Err(BleError::Protocol(e)),
        }
    }
}

/// The health status a health characteristic value stands for.
pub open spec fn health_from_value(v: Seq<u8>) -> Result<HealthStatus, BleError> {
    if v.len() < 10 {
        Err(BleError::PayloadTooShort { label: "health", expected: 10, actual: v.len() as usize })
    } else {
        match health_from_bytes(v.take(10)) {
            Ok(h) => Ok(h),
            Err(e) => Err(BleError::Protocol(e)),
        }
    }
}

/// The identity an identity characteristic value stands for.
pub open spec fn identity_from_value(v: Seq<u8>) -> Result<DeviceIdentity, BleError> {
    if v.len() < 12 {
        Err(
            BleError::PayloadTooShort { label: "identity", expected: 12, actual: v.len() as usize },
        )
    } else {
        match identity_from_bytes(v.take(12)) {
            Ok(i) => Ok(i),
            Err(e) => Err(BleError::Protocol(e)),
        }
    }
}

/// Decodes a value read from the state characteristic.
pub fn decode_state_value(value: &[u8]) -> (r: Result<RelayState, BleError>)
    ensures
        r == state_from_value(value@),
{
    let payload = decode_exact_or_prefix::<1>(value, "state")?;
    match RelayState::decode(payload) {
        Ok(s) => Ok(s),
        Err(e) => Err(BleError::Protocol(e)),
    }
}

/// Decodes a value read from the health characteristic.
pub fn decode_health_value(value: &[u8]) -> (r: Result<HealthStatus, BleError>)
    ensures
        r == health_from_value(value@),
{
    let payload = decode_exact_or_prefix::<10>(value, "health")?;
    match HealthStatus::decode(payload) {
        Ok(h) => Ok(h),
        Err(e) => Err(BleError::Protocol(e)),
    }
}

/// Decodes a value read from the identity characteristic.
pub fn decode_identity_value(value: &[u8]) -> (r: Result<DeviceIdentity, BleError>)
    ensures
        r == identity_from_value(value@),
{
    let payload = decode_exact_or_prefix::<12>(value, "identity")?;
    match DeviceIdentity::decode(payload) {
        Ok(i) => Ok(i),
        Err(e) => Err(BleError::Protocol(e)),
    }
}

/// A characteristic value is read from its leading bytes: an encoded
/// identity, health status or relay state followed by any further bytes
/// decodes as that identity, status or state, and bytes past the payload
/// never change what a long enough value decodes to.
pub proof fn lemma_values_decode_their_prefix(
    identity: DeviceIdentity,
    health: HealthStatus,
    state: RelayState,
    value: Seq<u8>,
    extra: Seq<u8>,
)
    ensures
        identity_from_value(identity.encoding() + extra) == Ok::<DeviceIdentity, BleError>(identity),
        health_from_value(health.encoding() + extra) == Ok::<HealthStatus, BleError>(health),
        state_from_value(seq![state.wire_byte()] + extra) == Ok::<RelayState, BleError>(state),
        value.len() >= 12 ==> identity_from_value(value + extra) == identity_from_value(value),
        value.len() >= 10 ==> health_from_value(value + extra) == health_from_value(value),
        value.len() >= 1 ==> state_from_value(value + extra) == state_from_value(value),
{
    crate::protocol::lemma_identity_roundtrip(identity);
    crate::protocol::lemma_health_roundtrip(health);
    crate::protocol::lemma_state_roundtrip(state);
    assert((identity.encoding() + extra).take(12) =~= identity.encoding());
    assert((health.encoding() + extra).take(10) =~= health.encoding());
    assert((seq![state.wire_byte()] + extra).take(1) =~= seq![state.wire_byte()]);
    assert(value.len() >= 12 ==> (value + extra).take(12) =~= value.take(12));
    assert(value.len() >= 10 ==> (value + extra).take(10) =~= value.take(10));
    assert(value.len() >= 1 ==> (value + extra).take(1) =~= value.take(1));
}

/// The all-zero address some stacks report when they know none.
pub open spec fn zero_address() -> Seq<char> {
    "00:00:00:00:00:00"@
}

/// An address as the hub keeps it: trimmed, and absent when it is empty or
/// the all-zero address in any letter case.
pub open spec fn normalized_address(address: Seq<char>) -> Option<Seq<char>> {
    let t = trimmed(address);
    if t.len() == 0 || ascii_lowered(t) == ascii_lowered(zero_address()) {
        None
    } else {
        Some(t)
    }
}

pub fn normalize_ble_address(address: &str) -> (r: Option<String>)
    ensures
        match r {
            Some(s) => normalized_address(address@) == Some(s@),
            None => normalized_address(address@) == None::<Seq<char>>,
        },
{
    let t = trim_str(address);
    if t.is_empty() || eq_ignore_ascii_case(t, "00:00:00:00:00:00") {
        None
    } else {
        Some(owned(t))
    }
}


fn contains_uuid(uuids: &Vec<u128>, uuid: u128) -> (r: bool)
    ensures
        r == uuids@.contains(uuid),
{
    let mut i: usize = 0;
    while i < uuids.len()
        invariant
            i <= uuids@.len(),
            forall|k: int| 0 <= k < i ==> uuids@[k] != uuid,
        decreases uuids@.len() - i,
    {
        if uuids[i] == uuid {
            return true;
        }
        i = i + 1;
    }
    false
}

/// The list holds the UUID written as `text`, when that text parses.
pub open spec fn lists_uuid(uuids: Seq<u128>, text: Seq<char>) -> bool {
    uuid_from_text(text) matches Some(u) && uuids.contains(u)
}

/// A connected peripheral is a dongle when it exposes the switcher service,
/// or all four of its characteristics.
pub open spec fn exposes_dongle(services: Seq<u128>, characteristics: Seq<u128>) -> bool {
    ||| lists_uuid(services, SERVICE_UUID@)
    ||| {
        &&& lists_uuid(characteristics, STATE_UUID@)
        &&& lists_uuid(characteristics, COMMAND_UUID@)
        &&& lists_uuid(characteristics, HEALTH_UUID@)
        &&& lists_uuid(characteristics, IDENTITY_UUID@)
    }
}

fn lists_uuid_text(uuids: &Vec<u128>, text: &str) -> (r: bool)
    ensures
        r == lists_uuid(uuids@, text@),
{
    match parse_uuid(text) {
        Ok(u) => contains_uuid(uuids, u),
        Err(_) => false,
    }
}

/// The list holds the UUID, when there is one.
pub open spec fn holds_uuid(uuids: Seq<u128>, uuid: Option<u128>) -> bool {
    uuid matches Some(u) && uuids.contains(u)
}

fn holds_uuid_value(uuids: &Vec<u128>, uuid: Option<u128>) -> (r: bool)
    ensures
        r == holds_uuid(uuids@, uuid),
{
    match uuid {
        Some(u) => contains_uuid(uuids, u),
        None => false,
    }
}

/// The parsed UUID, or `None` where the text does not parse.
fn parsed_uuid(text: &str) -> (r: Option<u128>)
    ensures
        r == uuid_from_text(text@),
{
    match parse_uuid(text) {
        Ok(u) => Some(u),
        Err(_) => None,
    }
}

/// Decides, from the parsed UUIDs of the dongle service and of its state,
/// command, health and identity characteristics (`None` for one that did not
/// parse), whether a connected peripheral is a switcher dongle: it exposes
/// the service, or all four characteristics.
pub fn recognise_dongle(
    services: &Vec<u128>,
    characteristics: &Vec<u128>,
    service: Option<u128>,
    state: Option<u128>,
    command: Option<u128>,
    health: Option<u128>,
    identity: Option<u128>,
) -> (r: bool)
    ensures
        r == (holds_uuid(services@, service) || (holds_uuid(characteristics@, state)
            && holds_uuid(characteristics@, command) && holds_uuid(characteristics@, health)
            && holds_uuid(characteristics@, identity))),
{
    if holds_uuid_value(services, service) {
        return true;
    }
    holds_uuid_value(characteristics, state) && holds_uuid_value(characteristics, command)
        && holds_uuid_value(characteristics, health) && holds_uuid_value(characteristics, identity)
}

/// Decides whether a connected peripheral, by the service and characteristic
/// UUIDs it exposes, is a switcher dongle.
pub fn matches_connected_dongle(services: &Vec<u128>, characteristics: &Vec<u128>) -> (r: bool)
    ensures
        r == exposes_dongle(services@, characteristics@),
{
    recognise_dongle(
        services,
        characteristics,
        parsed_uuid(SERVICE_UUID),
        parsed_uuid(STATE_UUID),
        parsed_uuid(COMMAND_UUID),
        parsed_uuid(HEALTH_UUID),
        parsed_uuid(IDENTITY_UUID),
    )
}

/// A peripheral's address matches the preferred one, ignoring ASCII letter case.
pub open spec fn address_is(address: Option<String>, preferred: Seq<char>) -> bool {
    address matches Some(a) && ascii_lowered(a@) == ascii_lowered(preferred)
}

/// What the hub learned about one discovered peripheral: its address (`None`
/// where it reported no properties), the service UUIDs it advertises or
/// exposes, and the device id it reported (`None` where it was not read).
pub struct PeripheralInfo {
    pub address: Option<String>,
    pub services: Vec<u128>,
    pub identity: Option<[u8; 8]>,
}

/// The peripheral is a switcher dongle whose identity fits the expectation:
/// it lists the service UUID and, where a device id is expected, reported it.
pub open spec fn is_expected_dongle(p: PeripheralInfo, expected: Option<Seq<u8>>) -> bool {
    &&& lists_uuid(p.services@, SERVICE_UUID@)
    &&& match expected {
        Some(e) => p.identity matches Some(id) && id@ == e,
        None => true,
    }
}

/// How well a peripheral fits the registered dongle, best first: 0 at the
/// preferred address, 1 at the last address the dongle was seen at, 2 a
/// dongle with the expected identity, 3 not at all.
pub open spec fn fit_rank(
    p: PeripheralInfo,
    preferred: Option<Seq<char>>,
    last_seen: Option<Seq<char>>,
    expected: Option<Seq<u8>>,
) -> int {
    if preferred matches Some(a) && address_is(p.address, a) {
        0
    } else if last_seen matches Some(a) && address_is(p.address, a) {
        1
    } else if is_expected_dongle(p, expected) {
        2
    } else {
        3
    }
}

/// `fit_rank` for the registration as the hub holds it.
pub open spec fn rank_for(
    p: PeripheralInfo,
    preferred: Option<&str>,
    last_seen: Option<&str>,
    expected: Option<[u8; 8]>,
) -> int {
    fit_rank(p, optional_str(preferred), optional_str(last_seen), optional_id(expected))
}

/// The text of an optional string slice.
pub open spec fn optional_str(a: Option<&str>) -> Option<Seq<char>> {
    match a {
        Some(s) => Some(s@),
        None => None,
    }
}

/// The bytes of an optional device id.
pub open spec fn optional_id(a: Option<[u8; 8]>) -> Option<Seq<u8>> {
    match a {
        Some(id) => Some(id@),
        None => None,
    }
}

fn same_device_id(a: &[u8; 8], b: &[u8; 8]) -> (r: bool)
    ensures
        r == (a@ == b@),
{
    let mut i: usize = 0;
    while i < 8
        invariant
            i <= 8,
            forall|k: int| 0 <= k < i ==> a@[k] == b@[k],
        decreases 8 - i,
    {
        if a[i] != b[i] {
            return false;
        }
        i = i + 1;
    }
    assert(a@ =~= b@);
    true
}

fn fit_rank_of(
    p: &PeripheralInfo,
    preferred: Option<&str>,
    last_seen: Option<&str>,
    expected: Option<[u8; 8]>,
) -> (r: u8)
    ensures
        r as int == fit_rank(*p, optional_str(preferred), optional_str(last_seen), optional_id(expected)),
{
    if let Some(a) = &p.address {
        if let Some(pref) = preferred {
            if eq_ignore_ascii_case(a.as_str(), pref) {
                return 0;
            }
        }
        if let Some(last) = last_seen {
            if eq_ignore_ascii_case(a.as_str(), last) {
                return 1;
            }
        }
    }
    if !lists_uuid_text(&p.services, SERVICE_UUID) {
        return 3;
    }
    match expected {
        None => 2,
        Some(e) => match &p.identity {
            Some(id) => {
                if same_device_id(id, &e) {
                    2
                } else {
                    3
                }
            },
            None => 3,
        },
    }
}

/// Chooses the peripheral to connect to for one registered dongle: the first
/// at the preferred address; failing that, the first at the address the
/// dongle was last seen at; failing that, the first that lists the dongle
/// service and reports the expected device id. `None` when none fits.
pub fn select_peripheral(
    peripherals: &Vec<PeripheralInfo>,
    preferred: Option<&str>,
    last_seen: Option<&str>,
    expected: Option<[u8; 8]>,
) -> (r: Option<usize>)
    ensures
        match r {
            Some(i) => {
                &&& i < peripherals@.len()
                &&& rank_for(peripherals@[i as int], preferred, last_seen, expected) < 3
                &&& forall|k: int|
                    0 <= k < peripherals@.len() ==> rank_for(
                        #[trigger] peripherals@[k],
                        preferred,
                        last_seen,
                        expected,
                    ) >= rank_for(peripherals@[i as int], preferred, last_seen, expected)
                &&& forall|k: int|
                    0 <= k < i ==> rank_for(#[trigger] peripherals@[k], preferred, last_seen, expected)
                        > rank_for(peripherals@[i as int], preferred, last_seen, expected)
            },
            None => forall|k: int|
                0 <= k < peripherals@.len() ==> rank_for(
                    #[trigger] peripherals@[k],
                    preferred,
                    last_seen,
                    expected,
                ) == 3,
        },
{
    let ghost pr = optional_str(preferred);
    let ghost ls = optional_str(last_seen);
    let ghost ex = optional_id(expected);
    let mut best: Option<usize> = None;
    let mut best_rank: u8 = 3;
    let mut i: usize = 0;
    while i < peripherals.len()
        invariant
            i <= peripherals@.len(),
            pr == optional_str(preferred),
            ls == optional_str(last_seen),
            ex == optional_id(expected),
            best_rank <= 3,
            match best {
                None => best_rank == 3,
                Some(b) => b < i && best_rank < 3 && fit_rank(peripherals@[b as int], pr, ls, ex)
                    == best_rank,
            },
            forall|k: int|
                0 <= k < i ==> fit_rank(#[trigger] peripherals@[k], pr, ls, ex) >= best_rank,
            best matches Some(b) ==> forall|k: int|
                0 <= k < b ==> fit_rank(#[trigger] peripherals@[k], pr, ls, ex) > best_rank,
        decreases peripherals@.len() - i,
    {
        let rank = fit_rank_of(&peripherals[i], preferred, last_seen, expected);
        if rank < best_rank {
            best = Some(i);
            best_rank = rank;
        }
        i = i + 1;
    }
    best
}

/// The decimal digits of a number, without leading zeros.
pub open spec fn decimal_text(n: nat) -> Seq<char>
    decreases n,
{
    if n < 10 {
        seq![(48 + n) as char]
    } else {
        decimal_text(n / 10).push((48 + n % 10) as char)
    }
}

fn push_decimal(s: &mut String, n: u32)
    ensures
        final(s)@ == old(s)@ + decimal_text(n as nat),
    decreases n,
{
    if n >= 10 {
        push_decimal(s, n / 10);
    }
    let d = (n % 10) as u8;
    push_char(s, (48u8 + d) as char);
    assert(final(s)@ =~= old(s)@ + decimal_text(n as nat));
}

/// A byte as two lowercase hexadecimal digits.
pub open spec fn hex_byte_text(b: u8) -> Seq<char> {
    seq![hex_char((b / 16) as int), hex_char((b % 16) as int)]
}

/// Bytes as two-digit hexadecimal numbers separated by ", ".
pub open spec fn hex_items_text(b: Seq<u8>) -> Seq<char>
    decreases b.len(),
{
    if b.len() == 0 {
        Seq::empty()
    } else if b.len() == 1 {
        hex_byte_text(b[0])
    } else {
        hex_items_text(b.drop_last()) + seq![',', ' '] + hex_byte_text(b.last())
    }
}

/// The debug rendering of a byte array in lowercase hexadecimal: `[12, ab]`.
pub open spec fn hex_list_text(b: Seq<u8>) -> Seq<char> {
    seq!['['] + hex_items_text(b) + seq![']']
}

/// A three-part version `a.b.c` in decimal.
pub open spec fn version_text(v: Seq<u8>) -> Seq<char> {
    decimal_text(v[0] as nat) + seq!['.'] + decimal_text(v[1] as nat) + seq!['.'] + decimal_text(
        v[2] as nat,
    )
}

fn push_hex_byte(s: &mut String, b: u8)
    ensures
        final(s)@ == old(s)@ + hex_byte_text(b),
{
    assert(b >> 4 == b / 16 && b & 0x0f == b % 16) by (bit_vector);
    push_char(s, hex_digit(b >> 4));
    push_char(s, hex_digit(b & 0x0f));
    assert(final(s)@ =~= old(s)@ + hex_byte_text(b));
}

/// Descriptive metadata of a dongle, as key and text pairs in a fixed order.
pub fn metadata_map(identity: &DeviceIdentity, health: &HealthStatus) -> (m: Vec<
    (&'static str, String),
>)
    ensures
        m@.len() == 3,
        m@[0].0 == "device_id" && m@[0].1@ == hex_list_text(identity.device_id@),
        m@[1].0 == "firmware_version" && m@[1].1@ == version_text(identity.firmware_version@),
        m@[2].0 == "boot_count" && m@[2].1@ == decimal_text(health.boot_count as nat),
{
    let mut id_text = String::new();
    push_char(&mut id_text, '[');
    let mut i: usize = 0;
    while i < 8
        invariant
            i <= 8,
            id_text@ == seq!['['] + hex_items_text(identity.device_id@.take(i as int)),
        decreases 8 - i,
    {
        if i > 0 {
            push_char(&mut id_text, ',');
            push_char(&mut id_text, ' ');
        }
        push_hex_byte(&mut id_text, identity.device_id[i]);
        proof {
            let t = identity.device_id@.take(i + 1);
            assert(t.drop_last() =~= identity.device_id@.take(i as int));
        }
        i = i + 1;
        assert(id_text@ =~= seq!['['] + hex_items_text(identity.device_id@.take(i as int)));
    }
    push_char(&mut id_text, ']');
    assert(identity.device_id@.take(8) =~= identity.device_id@);
    assert(id_text@ =~= hex_list_text(identity.device_id@));

    let mut version = String::new();
    push_decimal(&mut version, identity.firmware_version[0] as u32);
    push_char(&mut version, '.');
    push_decimal(&mut version, identity.firmware_version[1] as u32);
    push_char(&mut version, '.');
    push_decimal(&mut version, identity.firmware_version[2] as u32);
    assert(version@ =~= version_text(identity.firmware_version@));

    let mut boot = String::new();
    push_decimal(&mut boot, health.boot_count);
    assert(boot@ =~= decimal_text(health.boot_count as nat));

    let mut map: Vec<(&'static str, String)> = Vec::new();
    map.push(("device_id", id_text));
    map.push(("firmware_version", version));
    map.push(("boot_count", boot));
    map
}


/// Normalising an address twice changes nothing more than normalising it once.
pub proof fn lemma_normalized_address_idempotent(address: Seq<char>)
    ensures
        normalized_address(address) matches Some(t) ==> normalized_address(t) == Some(t),
{
    crate::text::lemma_trimmed_idempotent(address);
}

/// An in-memory dongle: the state behind the hub's mock BLE client.
pub struct MockBleState {
    pub connected: bool,
    pub fail_connect_once: bool,
    pub address: Option<String>,
    pub state: RelayState,
    pub health: HealthStatus,
    pub identity: DeviceIdentity,
}

/// Clones an optional string.
pub fn clone_address(a: &Option<String>) -> (r: Option<String>)
    ensures
        r == *a,
{
    match a {
        Some(s) => Some(s.clone()),
        None => None,
    }
}

impl MockBleState {
    /// A disconnected dongle at `AA:BB:CC:DD:EE:FF`, relay off, first boot,
    /// identity `dongle01` with firmware 0.1.0.
    pub fn new() -> (m: MockBleState)
        ensures
            !m.connected,
            !m.fail_connect_once,
            m.address matches Some(a) && a@ == "AA:BB:CC:DD:EE:FF"@,
            m.state == RelayState::Off,
            m.health == HealthStatus::new_spec(1, 0, HealthCode::NoError),
            m.identity.protocol_version == crate::protocol::PROTOCOL_VERSION,
            m.identity.device_id@ == seq![100u8, 111, 110, 103, 108, 101, 48, 49],
            m.identity.firmware_version@ == seq![0u8, 1, 0],
    {
        let device_id: [u8; 8] = [100, 111, 110, 103, 108, 101, 48, 49];
        let firmware_version: [u8; 3] = [0, 1, 0];
        let identity = DeviceIdentity::new(device_id, firmware_version);
        assert(identity.device_id@ =~= seq![100u8, 111, 110, 103, 108, 101, 48, 49]);
        assert(identity.firmware_version@ =~= seq![0u8, 1, 0]);
        MockBleState {
            connected: false,
            fail_connect_once: false,
            address: Some(owned("AA:BB:CC:DD:EE:FF")),
            state: RelayState::Off,
            health: HealthStatus::new(1, 0, HealthCode::NoError),
            identity,
        }
    }

    /// Connects, unless a failure was armed: that failure is reported once.
    pub fn connect(&mut self) -> (r: Result<(), BleError>)
        ensures
            old(self).fail_connect_once ==> {
                &&& r == Err::<(), BleError>(BleError::ConnectFailed)
                &&& *final(self) == (MockBleState {
                    fail_connect_once: false,
                    connected: false,
                    ..*old(self)
                })
            },
            !old(self).fail_connect_once ==> {
                &&& r == Ok::<(), BleError>(())
                &&& *final(self) == (MockBleState { connected: true, ..*old(self) })
            },
    {
        if self.fail_connect_once {
            self.fail_connect_once = false;
            self.connected = false;
            return Err(BleError::ConnectFailed);
        }
        self.connected = true;
        Ok(())
    }

    pub fn disconnect(&mut self)
        ensures
            *final(self) == (MockBleState { connected: false, ..*old(self) }),
    {
        self.connected = false;
    }

    /// Arms a failure for the next connection attempt.
    pub fn fail_next_connect(&mut self)
        ensures
            *final(self) == (MockBleState { fail_connect_once: true, ..*old(self) }),
    {
        self.fail_connect_once = true;
    }

    pub fn ensure_connected(&self) -> (r: Result<(), BleError>)
        ensures
            r == (if self.connected {
                Ok::<(), BleError>(())
            } else {
                Err(BleError::Disconnected)
            }),
    {
        if self.connected {
            Ok(())
        } else {
            Err(BleError::Disconnected)
        }
    }

    pub fn current_state(&self) -> (r: Result<RelayState, BleError>)
        ensures
            r == (if self.connected {
                Ok::<RelayState, BleError>(self.state)
            } else {
                Err(BleError::Disconnected)
            }),
    {
        self.ensure_connected()?;
        Ok(self.state)
    }

    /// Applies a command as the dongle firmware does; refused while disconnected.
    pub fn send_command(&mut self, command: RelayCommand) -> (r: Result<RelayState, BleError>)
        ensures
            !old(self).connected ==> r == Err::<RelayState, BleError>(BleError::Disconnected)
                && *final(self) == *old(self),
            old(self).connected ==> {
                let next = command_outcome(old(self).state, command);
                &&& r == Ok::<RelayState, BleError>(next)
                &&& *final(self) == (MockBleState { state: next, ..*old(self) })
            },
    {
        self.ensure_connected()?;
        self.state = match command {
            RelayCommand::Off => RelayState::Off,
            RelayCommand::On => RelayState::On,
            RelayCommand::Toggle => self.state.toggle(),
        };
        Ok(self.state)
    }

    pub fn health(&self) -> (r: Result<HealthStatus, BleError>)
        ensures
            r == (if self.connected {
                Ok::<HealthStatus, BleError>(self.health)
            } else {
                Err(BleError::Disconnected)
            }),
    {
        self.ensure_connected()?;
        Ok(self.health)
    }

    pub fn identity(&self) -> (r: Result<DeviceIdentity, BleError>)
        ensures
            r == (if self.connected {
                Ok::<DeviceIdentity, BleError>(self.identity)
            } else {
                Err(BleError::Disconnected)
            }),
    {
        self.ensure_connected()?;
        Ok(self.identity)
    }

    /// The address is known whether or not the dongle is connected.
    pub fn address(&self) -> (r: Option<String>)
        ensures
            r == self.address,
    {
        clone_address(&self.address)
    }
}


/// A peripheral that exposes the dongle's GATT service is recognised as a dongle.
pub proof fn lemma_service_recognised(services: Seq<u128>, characteristics: Seq<u128>)
    requires
        uuid_from_text(SERVICE_UUID@) matches Some(u) && services.contains(u),
    ensures
        exposes_dongle(services, characteristics),
{
}

} // verus!
