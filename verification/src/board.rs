//! Board-level rules of the dongle: its id, its advertised name, and how the
//! relay and status LED pins follow the relay state.

use vstd::prelude::*;
use vstd::utf8::encode_utf8;
use crate::device_id::{hex_digit, hex_text};
use crate::protocol::{le32, RelayState, DEVICE_NAME_PREFIX};
use crate::text::{lemma_encode_utf8_ascii_char, lemma_encode_utf8_concat};

verus! {

#[verifier::external_type_specification]
#[verifier::external_body]
pub struct ExHeaplessString<const N: usize>(heapless::String<N>);

/// The UTF-8 bytes held by a 24-byte `heapless::String`.
pub uninterp spec fn heapless_name_bytes(s: heapless::String<24>) -> Seq<u8>;

/// `heapless::String::new`: an empty string.
#[verifier::external_body]
fn new_name() -> (s: heapless::String<24>)
    ensures
        heapless_name_bytes(s) == Seq::<u8>::empty(),
{
    heapless::String::new()
}

/// `heapless::String::push`: appends the character's UTF-8 bytes when they fit
/// in the 24-byte capacity, and otherwise fails leaving the string unchanged.
#[verifier::external_body]
fn push_name_char(s: &mut heapless::String<24>, c: char) -> (r: Result<(), ()>)
    ensures
        heapless_name_bytes(*old(s)).len() + encode_utf8(seq![c]).len() <= 24 ==> {
            &&& r is Ok
            &&& heapless_name_bytes(*final(s)) == heapless_name_bytes(*old(s)) + encode_utf8(
                seq![c],
            )
        },
        heapless_name_bytes(*old(s)).len() + encode_utf8(seq![c]).len() > 24 ==> {
            &&& r is Err
            &&& heapless_name_bytes(*final(s)) == heapless_name_bytes(*old(s))
        },
{
    s.push(c)
}

/// `heapless::String::push_str`: appends the text's UTF-8 bytes when they fit
/// in the 24-byte capacity, and otherwise fails leaving the string unchanged.
#[verifier::external_body]
fn push_name_str(s: &mut heapless::String<24>, t: &str) -> (r: Result<(), ()>)
    ensures
        heapless_name_bytes(*old(s)).len() + encode_utf8(t@).len() <= 24 ==> {
            &&& r is Ok
            &&& heapless_name_bytes(*final(s)) == heapless_name_bytes(*old(s)) + encode_utf8(t@)
        },
        heapless_name_bytes(*old(s)).len() + encode_utf8(t@).len() > 24 ==> {
            &&& r is Err
            &&& heapless_name_bytes(*final(s)) == heapless_name_bytes(*old(s))
        },
{
    s.push_str(t)
}

pub const RELAY_PIN: u8 = 13;
pub const STATUS_LED_PIN: u8 = 8;

/// The dongle's 64-bit id from the two 32-bit device id words, low word first,
/// each little-endian.
pub fn device_id_from_words(low: u32, high: u32) -> (id: [u8; 8])
    ensures
        id@ == le32(low) + le32(high),
{
    let (a0, a1, a2, a3) = crate::protocol::encode_u32_le(low);
    let (b0, b1, b2, b3) = crate::protocol::encode_u32_le(high);
    let id = [a0, a1, a2, a3, b0, b1, b2, b3];
    assert(id@ =~= le32(low) + le32(high));
    id
}

/// The advertised name: the device name prefix, a dash, and the first four id
/// bytes as lowercase hexadecimal.
pub open spec fn advertised_name_text(device_id: Seq<u8>) -> Seq<char> {
    DEVICE_NAME_PREFIX@ + seq!['-'] + hex_text(device_id.take(4))
}

/// Builds the name the dongle advertises under.
pub fn advertised_name(device_id: &[u8; 8]) -> (name: heapless::String<24>)
    ensures
        heapless_name_bytes(name) == encode_utf8(advertised_name_text(device_id@)),
{
    proof {
        reveal_strlit("dongle");
        assert(vstd::utf8::is_ascii_chars(DEVICE_NAME_PREFIX@));
        vstd::utf8::is_ascii_chars_encode_utf8(DEVICE_NAME_PREFIX@);
        lemma_encode_utf8_ascii_char('-');
        lemma_encode_utf8_concat(DEVICE_NAME_PREFIX@, seq!['-']);
    }
    let mut name = new_name();
    let _ = push_name_str(&mut name, DEVICE_NAME_PREFIX);
    let _ = push_name_char(&mut name, '-');
    let mut i: usize = 0;
    assert(device_id@.take(0) =~= Seq::<u8>::empty());
    assert(DEVICE_NAME_PREFIX@ + seq!['-'] + hex_text(device_id@.take(0)) =~= DEVICE_NAME_PREFIX@
        + seq!['-']);
    while i < 4
        invariant
            i <= 4,
            heapless_name_bytes(name).len() == 7 + 2 * i,
            heapless_name_bytes(name) == encode_utf8(
                DEVICE_NAME_PREFIX@ + seq!['-'] + hex_text(device_id@.take(i as int)),
            ),
        decreases 4 - i,
    {
        let byte = device_id[i];
        assert(byte >> 4 == byte / 16 && byte & 0x0f == byte % 16) by (bit_vector);
        let hi = hex_digit(byte >> 4);
        let lo = hex_digit(byte & 0x0f);
        let ghost before = DEVICE_NAME_PREFIX@ + seq!['-'] + hex_text(device_id@.take(i as int));
        proof {
            lemma_encode_utf8_ascii_char(hi);
            lemma_encode_utf8_ascii_char(lo);
            lemma_encode_utf8_concat(before, seq![hi]);
            lemma_encode_utf8_concat(before.push(hi), seq![lo]);
            assert(before + seq![hi] =~= before.push(hi));
            assert(before.push(hi) + seq![lo] =~= before.push(hi).push(lo));
        }
        let _ = push_name_char(&mut name, hi);
        let _ = push_name_char(&mut name, lo);
        i = i + 1;
        assert(before.push(hi).push(lo) =~= DEVICE_NAME_PREFIX@ + seq!['-'] + hex_text(
            device_id@.take(i as int),
        ));
    }
    assert(device_id@.take(4) =~= device_id@.take(4));
    name
}

/// Voltage settings of the nRF52840 REGOUT0 regulator.
#[derive(Debug, Clone, Copy, PartialEq, Eq, Structural)]
pub enum Regout0Voltage {
    V1_8,
    V2_1,
    V2_4,
    V2_7,
    V3_0,
    V3_3,
    Default,
}

/// What has to happen to REGOUT0 for the board to run at 3.0 V.
#[derive(Debug, Clone, Copy, PartialEq, Eq, Structural)]
pub enum Regout0Plan {
    /// Already at 3.0 V.
    Keep,
    /// Program 3.0 V (erasing UICR first when it holds another setting), then reset.
    Program { erase_first: bool },
}

/// How to bring REGOUT0 to 3.0 V from the value read back: nothing when it
/// already holds 3.0 V; otherwise program it, erasing UICR first unless it
/// holds the erased default.
pub open spec fn plan_for(current: Option<Regout0Voltage>) -> Regout0Plan {
    if current == Some(Regout0Voltage::V3_0) {
        Regout0Plan::Keep
    } else {
        Regout0Plan::Program { erase_first: current != Some(Regout0Voltage::Default) }
    }
}

/// What REGOUT0 reads after a plan is carried out and the chip has reset.
/// Flash writes only clear bits, so programming sets 3.0 V when the cells are
/// erased at the time of the write: because they held the default, or
/// because the plan erased them. Otherwise the reading is not known (`None`).
pub open spec fn regout0_after(current: Option<Regout0Voltage>, plan: Regout0Plan) -> Option<
    Regout0Voltage,
> {
    match plan {
        Regout0Plan::Keep => current,
        Regout0Plan::Program { erase_first } => if erase_first || current == Some(
            Regout0Voltage::Default,
        ) {
            Some(Regout0Voltage::V3_0)
        } else {
            None
        },
    }
}

/// Decides how to bring REGOUT0 to 3.0 V from the value read back.
pub fn regout0_plan(current: Option<Regout0Voltage>) -> (p: Regout0Plan)
    ensures
        p == plan_for(current),
{
    match current {
        Some(Regout0Voltage::V3_0) => Regout0Plan::Keep,
        Some(Regout0Voltage::Default) => Regout0Plan::Program { erase_first: false },
        _ => Regout0Plan::Program { erase_first: true },
    }
}

/// Bringing REGOUT0 to 3.0 V settles after one pass: whatever it read, once
/// the plan is carried out it reads 3.0 V, and the plan for that reading is
/// to leave it alone; nothing is written exactly when it already read 3.0 V.
pub proof fn lemma_regout0_settles(current: Option<Regout0Voltage>)
    ensures
        regout0_after(current, plan_for(current)) == Some(Regout0Voltage::V3_0),
        plan_for(regout0_after(current, plan_for(current))) == Regout0Plan::Keep,
        (plan_for(current) == Regout0Plan::Keep) <==> current == Some(Regout0Voltage::V3_0),
{
}

/// On this board the HAL programs REGOUT0 during initialisation: nothing to do.
pub fn ensure_regout0_is_3v0() {
}

/// The relay output is active high: driven high exactly when the relay is on.
pub fn relay_output_high(state: RelayState) -> (high: bool)
    ensures
        high == state.is_on(),
{
    match state {
        RelayState::Off => false,
        RelayState::On => true,
    }
}

/// The status LED is active low: driven high exactly when it must be dark.
pub fn status_led_output_high(on: bool) -> (high: bool)
    ensures
        high == !on,
{
    !on
}

} // verus!
