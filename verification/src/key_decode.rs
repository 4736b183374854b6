//! Key decoding: reading a modified key back from its extended spelling.
use crate::bytes::{
    all_digits, is_digit, parse_number, parsed_number, same_bytes, ESC,
};
use crate::input_keys::{
    is_tab, is_unicode_scalar, redundant_shift, should_strip_shift, tab,
};
use crate::key_code::{
    KeyCode, KEYC_BSPACE, KEYC_BTAB, KEYC_CTRL, KEYC_DOWN, KEYC_END, KEYC_HOME, KEYC_IMPLIED_META,
    KEYC_LEFT, KEYC_MASK_KEY, KEYC_META, KEYC_RIGHT, KEYC_SHIFT, KEYC_UP,
};
use vstd::prelude::*;
use vstd::utf8::*;

verus! {

/// What the start of an input holds.
#[derive(Debug, Clone, Copy, PartialEq, Eq, Structural)]
pub enum ExtendedKeyDecode {
    /// No extended key starts here.
    Invalid,
    /// More input is needed to tell.
    Partial,
    /// The first `size` bytes spell `key`.
    Matched { size: usize, key: KeyCode },
}

/// The length at which an unterminated sequence is given up.
pub const MAX_SEQUENCE: usize = 64;

/// The byte ends an extended key.
pub open spec fn terminator(byte: u8) -> bool {
    byte == '~' as u8 || byte == 'u' as u8 || byte == 'A' as u8 || byte == 'B' as u8 || byte
        == 'C' as u8 || byte == 'D' as u8 || byte == 'F' as u8 || byte == 'H' as u8
}

/// The byte belongs to the parameters of a sequence.
pub open spec fn parameter(byte: u8) -> bool {
    is_digit(byte) || byte == ';' as u8
}

/// Where the parameters that start at `from` stop: at the first other byte, at the
/// end of the input, or at the length limit.
pub open spec fn parameters_end(input: Seq<u8>, from: int) -> int
    decreases input.len() - from,
{
    if from < 0 || from >= input.len() || from >= MAX_SEQUENCE || !parameter(input[from]) {
        from
    } else {
        parameters_end(input, from + 1)
    }
}

/// The parts between the semicolons of a parameter string.
pub open spec fn fields(payload: Seq<u8>) -> Seq<Seq<u8>>
    decreases payload.len(),
{
    if payload.len() == 0 {
        seq![Seq::empty()]
    } else {
        let before = fields(payload.drop_last());
        if payload.last() == ';' as u8 {
            before.push(Seq::empty())
        } else {
            before.drop_last().push(before.last().push(payload.last()))
        }
    }
}

/// The key that a number stands for: Backspace for the erase byte, else a character.
pub open spec fn numbered_key(number: nat, backspace: Option<u8>) -> Option<KeyCode> {
    if backspace is Some && backspace->0 == number {
        Some(KEYC_BSPACE)
    } else if number <= u32::MAX && is_scalar(number as u32) {
        Some(number as u64)
    } else {
        None
    }
}

/// The key that a cursor-key terminator stands for.
pub open spec fn cursor_key(last: u8) -> Option<KeyCode> {
    if last == 'A' as u8 {
        Some(KEYC_UP)
    } else if last == 'B' as u8 {
        Some(KEYC_DOWN)
    } else if last == 'C' as u8 {
        Some(KEYC_RIGHT)
    } else if last == 'D' as u8 {
        Some(KEYC_LEFT)
    } else if last == 'F' as u8 {
        Some(KEYC_END)
    } else if last == 'H' as u8 {
        Some(KEYC_HOME)
    } else {
        None
    }
}

/// The key with the modifiers that a parameter names: of the parameter less one,
/// the first bit is Shift, the third is Control, and the second and the fourth are
/// Meta.
pub open spec fn with_modifiers(key: KeyCode, parameter: u16) -> KeyCode {
    let bits = (parameter - 1) as u16;
    if parameter == 0 {
        key
    } else {
        let key = if (bits & 1) != 0 { key | KEYC_SHIFT } else { key };
        let key = if (bits & 2) != 0 { key | (KEYC_META | KEYC_IMPLIED_META) } else { key };
        let key = if (bits & 4) != 0 { key | KEYC_CTRL } else { key };
        if (bits & 8) != 0 { key | (KEYC_META | KEYC_IMPLIED_META) } else { key }
    }
}

/// Shift with Tab is the key with a name of its own, and a Shift that the character
/// already reflects is dropped.
pub open spec fn normalized(key: KeyCode) -> KeyCode {
    let named = if tab(key) && (key & KEYC_SHIFT) != 0 {
        KEYC_BTAB | (key & !KEYC_MASK_KEY & !KEYC_SHIFT)
    } else {
        key
    };
    if redundant_shift(named) {
        named & !KEYC_SHIFT
    } else {
        named
    }
}

/// The key and the modifier parameter that the fields of a sequence name.
pub open spec fn key_and_modifiers(
    fields: Seq<Seq<u8>>,
    last: u8,
    backspace: Option<u8>,
) -> (Option<KeyCode>, Option<nat>) {
    if last == '~' as u8 {
        if fields.len() == 3 && fields[0] == seq!['2' as u8, '7' as u8] {
            (number_field(fields[2], backspace), parsed_number(fields[1], u16::MAX as nat))
        } else {
            (None, None)
        }
    } else if fields.len() != 2 {
        (None, None)
    } else if last == 'u' as u8 {
        (number_field(fields[0], backspace), parsed_number(fields[1], u16::MAX as nat))
    } else if parsed_number(fields[0], u16::MAX as nat) is Some {
        (cursor_key(last), parsed_number(fields[1], u16::MAX as nat))
    } else {
        (None, None)
    }
}

/// The key that a field with a number names.
pub open spec fn number_field(field: Seq<u8>, backspace: Option<u8>) -> Option<KeyCode> {
    match parsed_number(field, u32::MAX as nat) {
        Some(number) => numbered_key(number, backspace),
        None => None,
    }
}

/// The key that a terminated sequence spells.
pub open spec fn spelled_key(payload: Seq<u8>, last: u8, backspace: Option<u8>) -> Option<KeyCode> {
    match key_and_modifiers(fields(payload), last, backspace) {
        (Some(key), Some(parameter)) => Some(normalized(with_modifiers(key, parameter as u16))),
        _ => None,
    }
}

/// What the start of `input` holds.
pub open spec fn decoded_key(input: Seq<u8>, backspace: Option<u8>) -> ExtendedKeyDecode {
    let end = parameters_end(input, 2);
    if input.len() == 0 || input[0] != ESC {
        ExtendedKeyDecode::Invalid
    } else if input.len() == 1 {
        ExtendedKeyDecode::Partial
    } else if input[1] != '[' as u8 {
        ExtendedKeyDecode::Invalid
    } else if end == input.len() {
        ExtendedKeyDecode::Partial
    } else if end == MAX_SEQUENCE || !terminator(input[end]) {
        ExtendedKeyDecode::Invalid
    } else {
        match spelled_key(input.subrange(2, end), input[end], backspace) {
            Some(key) => ExtendedKeyDecode::Matched { size: (end + 1) as usize, key },
            None => ExtendedKeyDecode::Invalid,
        }
    }
}

/// What a list of byte strings holds.
pub open spec fn contents_of(parts: Seq<Vec<u8>>) -> Seq<Seq<u8>> {
    parts.map_values(|part: Vec<u8>| part@)
}

/// Splits a parameter string at its semicolons.
fn split_fields(payload: &[u8]) -> (parts: Vec<Vec<u8>>)
    ensures
        contents_of(parts@) == fields(payload@),
{
    let mut parts: Vec<Vec<u8>> = Vec::new();
    let mut field: Vec<u8> = Vec::new();
    let mut index: usize = 0;
    while index < payload.len()
        invariant
            index <= payload.len(),
            contents_of(parts@).push(field@) == fields(payload@.take(index as int)),
        decreases payload.len() - index,
    {
        let byte: u8 = payload[index];
        let ghost longer = payload@.take(index + 1);
        assert(longer.drop_last() =~= payload@.take(index as int));
        if byte == ';' as u8 {
            parts.push(field);
            field = Vec::new();
        } else {
            field.push(byte);
        }
        index = index + 1;
    }
    assert(payload@.take(index as int) =~= payload@);
    parts.push(field);
    parts
}

/// The fields of a string of parameter bytes hold only digits.
pub proof fn fields_are_digits(payload: Seq<u8>)
    requires
        forall|i: int| 0 <= i < payload.len() ==> parameter(#[trigger] payload[i]),
    ensures
        fields(payload).len() > 0,
        forall|i: int| 0 <= i < fields(payload).len() ==> all_digits(#[trigger] fields(payload)[i]),
    decreases payload.len(),
{
    if payload.len() > 0 {
        let shorter = payload.drop_last();
        fields_are_digits(shorter);
    }
}

/// Whether the byte ends an extended key.
pub fn is_extended_key_terminator(byte: u8) -> (yes: bool)
    ensures
        yes == terminator(byte),
{
    byte == '~' as u8 || byte == 'u' as u8 || byte == 'A' as u8 || byte == 'B' as u8 || byte
        == 'C' as u8 || byte == 'D' as u8 || byte == 'F' as u8 || byte == 'H' as u8
}

/// The key that a number stands for.
pub fn key_from_extended_number(number: u32, backspace: Option<u8>) -> (key: Option<KeyCode>)
    ensures
        key == numbered_key(number as nat, backspace),
{
    match backspace {
        Some(erase) => if erase as u32 == number {
            return Some(KEYC_BSPACE);
        },
        None => {},
    }
    if is_unicode_scalar(number) {
        Some(number as u64)
    } else {
        None
    }
}

/// The key that a cursor-key terminator stands for.
pub fn key_from_modified_cursor_terminator(last: u8) -> (key: Option<KeyCode>)
    ensures
        key == cursor_key(last),
{
    if last == 'A' as u8 {
        Some(KEYC_UP)
    } else if last == 'B' as u8 {
        Some(KEYC_DOWN)
    } else if last == 'C' as u8 {
        Some(KEYC_RIGHT)
    } else if last == 'D' as u8 {
        Some(KEYC_LEFT)
    } else if last == 'F' as u8 {
        Some(KEYC_END)
    } else if last == 'H' as u8 {
        Some(KEYC_HOME)
    } else {
        None
    }
}

/// Adds the modifiers that a parameter names.
fn apply_modifiers(key: KeyCode, parameter: u16) -> (modified: KeyCode)
    ensures
        modified == with_modifiers(key, parameter),
{
    let mut key: KeyCode = key;
    if parameter > 0 {
        let bits: u16 = parameter - 1;
        if (bits & 1) != 0 {
            key = key | KEYC_SHIFT;
        }
        if (bits & 2) != 0 {
            key = key | (KEYC_META | KEYC_IMPLIED_META);
        }
        if (bits & 4) != 0 {
            key = key | KEYC_CTRL;
        }
        if (bits & 8) != 0 {
            key = key | (KEYC_META | KEYC_IMPLIED_META);
        }
    }
    key
}

/// Gives Shift-Tab its own name and drops a redundant Shift.
fn normalize(key: KeyCode) -> (same: KeyCode)
    ensures
        same == normalized(key),
{
    let mut key: KeyCode = key;
    if is_tab(key) && (key & KEYC_SHIFT) != 0 {
        key = KEYC_BTAB | (key & !KEYC_MASK_KEY & !KEYC_SHIFT);
    }
    if should_strip_shift(key) {
        key = key & !KEYC_SHIFT;
    }
    key
}

/// Reads the key and the modifier parameter out of the fields of a sequence.
fn read_fields(parts: &Vec<Vec<u8>>, last: u8, backspace: Option<u8>) -> (key: Option<KeyCode>)
    requires
        forall|i: int| 0 <= i < parts@.len() ==> all_digits(#[trigger] contents_of(parts@)[i]),
    ensures
        key == (match key_and_modifiers(contents_of(parts@), last, backspace) {
            (Some(key), Some(parameter)) => Some(normalized(with_modifiers(key, parameter as u16))),
            _ => None,
        }),
{
    let base: Option<KeyCode>;
    let modifiers: Option<u32>;
    if last == '~' as u8 {
        if parts.len() != 3 {
            return None;
        }
        let prefix: [u8; 2] = ['2' as u8, '7' as u8];
        if !same_bytes(parts[0].as_slice(), &prefix) {
            return None;
        }
        modifiers = parse_number(parts[1].as_slice(), u16::MAX as u32);
        base = match parse_number(parts[2].as_slice(), u32::MAX) {
            Some(number) => key_from_extended_number(number, backspace),
            None => None,
        };
    } else {
        if parts.len() != 2 {
            return None;
        }
        modifiers = parse_number(parts[1].as_slice(), u16::MAX as u32);
        if last == 'u' as u8 {
            base = match parse_number(parts[0].as_slice(), u32::MAX) {
                Some(number) => key_from_extended_number(number, backspace),
                None => None,
            };
        } else {
            if parse_number(parts[0].as_slice(), u16::MAX as u32).is_none() {
                return None;
            }
            base = key_from_modified_cursor_terminator(last);
        }
    }
    match (base, modifiers) {
        (Some(key), Some(parameter)) => Some(normalize(apply_modifiers(key, parameter as u16))),
        _ => None,
    }
}

/// Decodes the extended key that `input` starts with.
pub fn decode_extended_key(input: &[u8], backspace: Option<u8>) -> (decoded: ExtendedKeyDecode)
    ensures
        decoded == decoded_key(input@, backspace),
{
    if input.len() == 0 || input[0] != ESC {
        return ExtendedKeyDecode::Invalid;
    }
    if input.len() == 1 {
        return ExtendedKeyDecode::Partial;
    }
    if input[1] != '[' as u8 {
        return ExtendedKeyDecode::Invalid;
    }
    let mut end: usize = 2;
    while end < input.len() && end < MAX_SEQUENCE && (('0' as u8 <= input[end] && input[end]
        <= '9' as u8) || input[end] == ';' as u8)
        invariant
            2 <= end <= input.len(),
            end <= MAX_SEQUENCE,
            parameters_end(input@, 2) == parameters_end(input@, end as int),
            forall|i: int| 2 <= i < end ==> parameter(#[trigger] input@[i]),
        decreases input.len() - end,
    {
        end = end + 1;
    }
    if end == input.len() {
        return ExtendedKeyDecode::Partial;
    }
    if end == MAX_SEQUENCE {
        return ExtendedKeyDecode::Invalid;
    }
    let last: u8 = input[end];
    if !is_extended_key_terminator(last) {
        return ExtendedKeyDecode::Invalid;
    }
    let payload: &[u8] = &input[2..end];
    let parts = split_fields(payload);
    proof {
        fields_are_digits(payload@);
    }
    match read_fields(&parts, last, backspace) {
        Some(key) => ExtendedKeyDecode::Matched { size: end + 1, key },
        None => ExtendedKeyDecode::Invalid,
    }
}

} // verus!
