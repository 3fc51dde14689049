//! Device ids as sixteen lowercase hexadecimal characters.

use vstd::prelude::*;
use vstd::utf8::{encode_utf8, is_ascii_chars};
use crate::text::{ascii_lowered, is_white_space, push_char, trim_str, trimmed};

verus! {

/// Why a device id could not be read.
#[derive(Debug, Clone, Copy, PartialEq, Eq, Structural)]
pub enum DeviceIdError {
    /// The trimmed text is not sixteen bytes long; carries its length.
    WrongLength(usize),
    /// The text holds a byte that is not a lowercase hexadecimal digit.
    InvalidCharacter,
}

/// The lowercase hexadecimal digit for a value below 16.
pub open spec fn hex_char(v: int) -> char {
    if v < 10 {
        (48 + v) as char
    } else {
        (87 + v) as char
    }
}

/// Sixteen lowercase hexadecimal digits, two per byte, high nibble first.
pub open spec fn hex_text(bytes: Seq<u8>) -> Seq<char> {
    Seq::new(
        2 * bytes.len(),
        |i: int|
            if i % 2 == 0 {
                hex_char((bytes[i / 2] / 16) as int)
            } else {
                hex_char((bytes[i / 2] % 16) as int)
            },
    )
}

/// The value of a lowercase hexadecimal digit byte.
pub open spec fn hex_nibble_value(b: u8) -> Option<u8> {
    if 48 <= b <= 57 {
        Some((b - 48) as u8)
    } else if 97 <= b <= 102 {
        Some((b - 87) as u8)
    } else {
        None
    }
}

/// Every byte is a lowercase hexadecimal digit.
pub open spec fn all_hex_digits(bytes: Seq<u8>) -> bool {
    forall|i: int| 0 <= i < bytes.len() ==> (#[trigger] hex_nibble_value(bytes[i])) is Some
}

/// The bytes that pairs of hexadecimal digits stand for.
pub open spec fn hex_pairs_value(bytes: Seq<u8>) -> Seq<u8> {
    Seq::new(
        bytes.len() / 2,
        |i: int|
            (hex_nibble_value(bytes[2 * i])->0 * 16 + hex_nibble_value(bytes[2 * i + 1])->0) as u8,
    )
}

/// What `parse_device_id` makes of a text: its trimmed UTF-8 bytes must be
/// sixteen lowercase hexadecimal digits.
pub open spec fn device_id_from_text(text: Seq<char>) -> Result<Seq<u8>, DeviceIdError> {
    let bytes = encode_utf8(trimmed(text));
    if bytes.len() != 16 {
        Err(DeviceIdError::WrongLength(bytes.len() as usize))
    } else if !all_hex_digits(bytes) {
        Err(DeviceIdError::InvalidCharacter)
    } else {
        Ok(hex_pairs_value(bytes))
    }
}

/// A lowercase hexadecimal digit character.
pub open spec fn is_lower_hex_char(c: char) -> bool {
    ('0' <= c <= '9') || ('a' <= c <= 'f')
}

/// Sixteen lowercase hexadecimal digit characters.
pub open spec fn is_device_id_text(t: Seq<char>) -> bool {
    t.len() == 16 && forall|i: int| 0 <= i < t.len() ==> is_lower_hex_char(#[trigger] t[i])
}

/// The view of a parse result: the id's bytes, or the error.
pub open spec fn parsed_view(r: Result<[u8; 8], DeviceIdError>) -> Result<Seq<u8>, DeviceIdError> {
    match r {
        Ok(a) => Ok(a@),
        Err(e) => Err(e),
    }
}

pub fn hex_digit(value: u8) -> (c: char)
    requires
        value < 16,
    ensures
        c == hex_char(value as int),
{
    if value < 10 {
        (48u8 + value) as char
    } else {
        (87u8 + value) as char
    }
}

pub fn parse_hex_nibble(value: u8) -> (r: Result<u8, DeviceIdError>)
    ensures
        match hex_nibble_value(value) {
            Some(v) => r == Ok::<u8, DeviceIdError>(v),
            None => r == Err::<u8, DeviceIdError>(DeviceIdError::InvalidCharacter),
        },
{
    if 48 <= value && value <= 57 {
        Ok(value - 48)
    } else if 97 <= value && value <= 102 {
        Ok(value - 87)
    } else {
        Err(DeviceIdError::InvalidCharacter)
    }
}

/// Writes an id as sixteen lowercase hexadecimal characters.
pub fn format_device_id(device_id: &[u8; 8]) -> (s: String)
    ensures
        s@ == hex_text(device_id@),
{
    let mut output = String::new();
    let mut i: usize = 0;
    while i < 8
        invariant
            i <= 8,
            output@ == hex_text(device_id@.take(i as int)),
        decreases 8 - i,
    {
        let byte = device_id[i];
        assert(byte >> 4 == byte / 16 && byte & 0x0f == byte % 16) by (bit_vector);
        push_char(&mut output, hex_digit(byte >> 4));
        push_char(&mut output, hex_digit(byte & 0x0f));
        i = i + 1;
        assert(output@ =~= hex_text(device_id@.take(i as int)));
    }
    assert(device_id@.take(8) =~= device_id@);
    output
}

/// Reads an id from sixteen lowercase hexadecimal characters, ignoring
/// surrounding white space.
pub fn parse_device_id(input: &str) -> (r: Result<[u8; 8], DeviceIdError>)
    ensures
        parsed_view(r) == device_id_from_text(input@),
{
    let trimmed_text = trim_str(input);
    let bytes = trimmed_text.as_bytes();
    if bytes.len() != 16 {
        return Err(DeviceIdError::WrongLength(bytes.len()));
    }
    let mut device_id = [0u8; 8];
    let mut i: usize = 0;
    while i < 8
        invariant
            i <= 8,
            bytes@ == encode_utf8(trimmed(input@)),
            bytes@.len() == 16,
            forall|k: int| 0 <= k < 2 * i ==> (#[trigger] hex_nibble_value(bytes@[k])) is Some,
            forall|k: int|
                0 <= k < i ==> device_id@[k] == #[trigger] hex_pairs_value(bytes@)[k],
        decreases 8 - i,
    {
        let high = match parse_hex_nibble(bytes[2 * i]) {
            Ok(v) => v,
            Err(e) => return Err(e),
        };
        let low = match parse_hex_nibble(bytes[2 * i + 1]) {
            Ok(v) => v,
            Err(e) => return Err(e),
        };
        assert((high << 4) | low == high * 16 + low) by (bit_vector)
            requires
                high < 16,
                low < 16,
        ;
        device_id[i] = (high << 4) | low;
        i = i + 1;
    }
    assert(device_id@ =~= hex_pairs_value(bytes@));
    Ok(device_id)
}

/// The hexadecimal digits are ASCII characters and none of them is white space.
proof fn lemma_hex_text_ascii(bytes: Seq<u8>)
    ensures
        is_ascii_chars(hex_text(bytes)),
        forall|i: int| 0 <= i < hex_text(bytes).len() ==> !is_white_space(#[trigger] hex_text(bytes)[i]),
{
    assert forall|i: int| 0 <= i < hex_text(bytes).len() implies ('\0' <= #[trigger] hex_text(bytes)[i] <= '\u{7f}' && !is_white_space(hex_text(bytes)[i])) by {
        let b = bytes[i / 2];
        assert(b / 16 < 16);
        assert(b % 16 < 16);
    }
}

/// Hexadecimal text is its own trimmed, lower-cased form.
pub proof fn lemma_hex_text_canonical(bytes: Seq<u8>)
    ensures
        trimmed(hex_text(bytes)) == hex_text(bytes),
        ascii_lowered(hex_text(bytes)) == hex_text(bytes),
{
    let t = hex_text(bytes);
    lemma_hex_text_ascii(bytes);
    crate::text::lemma_trimmed_unchanged(t);
    assert forall|i: int| 0 <= i < t.len() implies #[trigger] ascii_lowered(t)[i] == t[i] by {
        let b = bytes[i / 2];
        assert(b / 16 < 16);
        assert(b % 16 < 16);
    }
    assert(ascii_lowered(t) =~= t);
}

/// Formatting an id and parsing the text back gives the same id.
pub proof fn lemma_device_id_roundtrip(id: Seq<u8>)
    requires
        id.len() == 8,
    ensures
        device_id_from_text(hex_text(id)) == Ok::<Seq<u8>, DeviceIdError>(id),
{
    let t = hex_text(id);
    lemma_hex_text_ascii(id);
    crate::text::lemma_trimmed_unchanged(t);
    vstd::utf8::is_ascii_chars_encode_utf8(t);
    let bytes = encode_utf8(t);
    assert forall|k: int| 0 <= k < 16 implies (#[trigger] hex_nibble_value(bytes[k])) is Some && hex_nibble_value(bytes[k])->0 == (if k % 2 == 0 { id[k / 2] / 16 } else { id[k / 2] % 16 }) by {
        assert(bytes[k] == t[k] as u8);
        let b = id[k / 2];
        assert(b / 16 < 16);
        assert(b % 16 < 16);
    }
    assert forall|j: int| 0 <= j < 8 implies #[trigger] hex_pairs_value(bytes)[j] == id[j] by {
        assert(hex_nibble_value(bytes[2 * j])->0 == id[j] / 16);
        assert(hex_nibble_value(bytes[2 * j + 1])->0 == id[j] % 16);
    }
    assert(hex_pairs_value(bytes) =~= id);
}


/// The leading byte of a character outside ASCII is not an ASCII byte.
proof fn lemma_non_ascii_leading_byte(c: char)
    requires
        c as u32 >= 0x80,
    ensures
        encode_utf8(seq![c]).len() > 0,
        encode_utf8(seq![c])[0] >= 0x80,
{
    let v = c as u32;
    vstd::utf8::char_is_scalar(c);
    assert(seq![c].drop_first() =~= Seq::<char>::empty());
    let y2 = ((v >> 6) & 0x1F) as u8;
    let y3 = ((v >> 12) & 0x0F) as u8;
    let y4 = ((v >> 18) & 0x7) as u8;
    assert((0xC0u8 | y2) >= 0x80 && (0xE0u8 | y3) >= 0x80 && (0xF0u8 | y4) >= 0x80) by (bit_vector);
}

/// A character above the ASCII range has a code above 0x7f.
proof fn lemma_char_beyond_ascii(c: char)
    requires
        !(c <= '\u{7f}'),
    ensures
        (c as u32) >= 0x80,
{
}

/// No character comes before NUL.
proof fn lemma_char_at_least_nul(c: char)
    ensures
        '\0' <= c,
{
    vstd::utf8::char_is_scalar(c);
}

/// Text whose UTF-8 encoding holds only ASCII bytes is ASCII.
proof fn lemma_ascii_bytes_ascii_chars(cs: Seq<char>)
    requires
        forall|i: int| 0 <= i < encode_utf8(cs).len() ==> #[trigger] encode_utf8(cs)[i] < 0x80,
    ensures
        is_ascii_chars(cs),
    decreases cs.len(),
{
    if cs.len() > 0 {
        let head = seq![cs[0]];
        assert(head + cs.drop_first() =~= cs);
        crate::text::lemma_encode_utf8_concat(head, cs.drop_first());
        let e1 = encode_utf8(head);
        let e2 = encode_utf8(cs.drop_first());
        let c0 = cs[0];
        assert(c0 <= '\u{7f}') by {
            if !(c0 <= '\u{7f}') {
                lemma_char_beyond_ascii(c0);
                lemma_non_ascii_leading_byte(c0);
                assert(encode_utf8(cs)[0] == e1[0]);
                assert(false);
            }
        }
        assert forall|i: int| 0 <= i < e2.len() implies #[trigger] e2[i] < 0x80 by {
            assert(encode_utf8(cs)[e1.len() + i] == e2[i]);
        }
        lemma_ascii_bytes_ascii_chars(cs.drop_first());
        assert forall|i: int| 0 <= i < cs.len() implies '\0' <= #[trigger] cs[i] <= '\u{7f}' by {
            if i > 0 {
                let rest = cs.drop_first();
                assert('\0' <= rest[i - 1] <= '\u{7f}');
                assert(cs[i] == rest[i - 1]);
            } else {
                lemma_char_at_least_nul(c0);
                assert(cs[i] == c0);
            }
        }
    }
}

/// A lowercase hexadecimal digit is ASCII and its byte is a digit byte.
proof fn lemma_hex_char_byte(c: char)
    requires
        is_lower_hex_char(c),
    ensures
        c <= '\u{7f}',
        hex_nibble_value(c as u8) is Some,
{
}

/// An ASCII character whose byte is a digit byte is a lowercase hexadecimal digit.
proof fn lemma_hex_byte_char(c: char)
    requires
        c <= '\u{7f}',
        hex_nibble_value(c as u8) is Some,
    ensures
        is_lower_hex_char(c),
{
}

/// A text reads as a device id exactly when, trimmed, it is sixteen lowercase
/// hexadecimal digits.
pub proof fn lemma_device_id_text(text: Seq<char>)
    ensures
        device_id_from_text(text) is Ok <==> is_device_id_text(trimmed(text)),
{
    let cs = trimmed(text);
    let bytes = encode_utf8(cs);
    if is_device_id_text(cs) {
        assert forall|i: int| 0 <= i < cs.len() implies '\0' <= #[trigger] cs[i] <= '\u{7f}' by {
            lemma_hex_char_byte(cs[i]);
            lemma_char_at_least_nul(cs[i]);
        }
        vstd::utf8::is_ascii_chars_encode_utf8(cs);
        assert forall|i: int| 0 <= i < bytes.len() implies (#[trigger] hex_nibble_value(bytes[i])) is Some by {
            lemma_hex_char_byte(cs[i]);
            assert(bytes[i] == cs[i] as u8);
        }
    }
    if device_id_from_text(text) is Ok {
        assert forall|i: int| 0 <= i < bytes.len() implies #[trigger] bytes[i] < 0x80 by {
            assert(hex_nibble_value(bytes[i]) is Some);
        }
        lemma_ascii_bytes_ascii_chars(cs);
        vstd::utf8::is_ascii_chars_encode_utf8(cs);
        assert forall|i: int| 0 <= i < cs.len() implies is_lower_hex_char(#[trigger] cs[i]) by {
            assert(bytes[i] == cs[i] as u8);
            assert(hex_nibble_value(bytes[i]) is Some);
            lemma_hex_byte_char(cs[i]);
        }
    }
}

/// A successfully parsed id, formatted again, is the trimmed text it was read from.
pub proof fn lemma_parse_then_format(text: Seq<char>)
    ensures
        device_id_from_text(text) matches Ok(x) ==> hex_text(x) == trimmed(text),
{
    if let Ok(x) = device_id_from_text(text) {
        let cs = trimmed(text);
        let bytes = encode_utf8(cs);
        assert forall|i: int| 0 <= i < bytes.len() implies #[trigger] bytes[i] < 0x80 by {
            assert(hex_nibble_value(bytes[i]) is Some);
        }
        lemma_ascii_bytes_ascii_chars(cs);
        vstd::utf8::is_ascii_chars_encode_utf8(cs);
        let h = hex_text(x);
        assert(h.len() == cs.len());
        assert forall|i: int| 0 <= i < h.len() implies #[trigger] h[i] == cs[i] by {
            let j = i / 2;
            assert(hex_nibble_value(bytes[2 * j]) is Some);
            assert(hex_nibble_value(bytes[2 * j + 1]) is Some);
            assert(bytes[i] == cs[i] as u8);
            assert(hex_nibble_value(bytes[i]) is Some);
            let hi = hex_nibble_value(bytes[2 * j])->0;
            let lo = hex_nibble_value(bytes[2 * j + 1])->0;
            assert(x[j] == hi * 16 + lo);
            assert(x[j] / 16 == hi);
            assert(x[j] % 16 == lo);
            vstd::utf8::char_u32_cast(cs[i], cs[i] as u32);
        }
        assert(h =~= cs);
    }
}

} // verus!
