//! What holds of key encoding and decoding as a whole.
use crate::bytes::{all_digits, decimal, decimal_reads_back, decimal_value, decimal_width, ESC};
use crate::input_keys::{
    active_flags_keep_the_rest, backtab, character_form, cursor_final, encoded_key, extended_form,
    modified_cursor_form, modifier_bits, modifier_parameter, named_sequence, noop_control_key,
    standard_sequence, standard_sequence_with_fallback, trivial_key, unmodified, vt10x_form,
    with_active_flags, ExtendedKeyFormat,
};
use crate::key_code::{
    KeyCode, KEYC_BSPACE, KEYC_BTAB, KEYC_CTRL, KEYC_CURSOR, KEYC_DC, KEYC_DOWN, KEYC_END, KEYC_F1,
    KEYC_F10, KEYC_F11, KEYC_F12, KEYC_F2, KEYC_F3, KEYC_F4, KEYC_F5, KEYC_F6, KEYC_F7, KEYC_F8,
    KEYC_F9, KEYC_HOME, KEYC_IC, KEYC_IMPLIED_META, KEYC_KEYPAD, KEYC_KP_EIGHT, KEYC_KP_ENTER,
    KEYC_KP_FIVE, KEYC_KP_FOUR, KEYC_KP_MINUS, KEYC_KP_NINE, KEYC_KP_ONE, KEYC_KP_PERIOD,
    KEYC_KP_PLUS, KEYC_KP_SEVEN, KEYC_KP_SIX, KEYC_KP_SLASH, KEYC_KP_STAR, KEYC_KP_THREE,
    KEYC_KP_TWO, KEYC_KP_ZERO, KEYC_LEFT, KEYC_MASK_KEY, KEYC_MASK_MODIFIERS, KEYC_MASK_TYPE,
    KEYC_META, KEYC_NPAGE, KEYC_PPAGE, KEYC_RIGHT, KEYC_SHIFT, KEYC_UP,
};
use crate::key_decode::{
    decoded_key, fields, normalized, parameter, parameters_end, spelled_key, terminator,
    with_modifiers, ExtendedKeyDecode, MAX_SEQUENCE,
};
use crate::pane_mode::{MODE_KEYS_EXTENDED_2, MODE_KEYS_KITTY};
use vstd::prelude::*;
use vstd::utf8::*;

verus! {

/// The scan for the end of the parameters passes over parameter bytes and stops
/// where they stop.
pub proof fn scan_stops(input: Seq<u8>, from: int)
    requires
        0 <= from,
        from <= MAX_SEQUENCE,
        from <= input.len(),
    ensures
        ({
            let end = parameters_end(input, from);
            &&& from <= end <= input.len()
            &&& end <= MAX_SEQUENCE
            &&& forall|i: int| from <= i < end ==> parameter(#[trigger] input[i])
            &&& end < input.len() && end < MAX_SEQUENCE ==> !parameter(input[end])
        }),
    decreases input.len() - from,
{
    if from < input.len() && from < MAX_SEQUENCE && parameter(input[from]) {
        scan_stops(input, from + 1);
    }
}

/// The end of the parameters is where they are first interrupted.
pub proof fn scan_reaches(input: Seq<u8>, from: int, end: int)
    requires
        0 <= from <= end <= input.len(),
        end <= MAX_SEQUENCE,
        forall|i: int| from <= i < end ==> parameter(#[trigger] input[i]),
        end < input.len() && end < MAX_SEQUENCE ==> !parameter(input[end]),
    ensures
        parameters_end(input, from) == end,
    decreases end - from,
{
    if from < end {
        scan_reaches(input, from + 1, end);
    }
}

/// A match covers a part of the input, and what follows it does not matter.
pub proof fn match_depends_on_its_bytes(input: Seq<u8>, tail: Seq<u8>, backspace: Option<u8>)
    requires
        decoded_key(input, backspace) is Matched,
    ensures
        ({
            let size = decoded_key(input, backspace)->size;
            &&& 3 <= size <= input.len()
            &&& size <= MAX_SEQUENCE
            &&& decoded_key(input.take(size as int) + tail, backspace) == decoded_key(
                input,
                backspace,
            )
        }),
{
    let end = parameters_end(input, 2);
    scan_stops(input, 2);
    let other = input.take(end + 1) + tail;
    scan_reaches(other, 2, end);
    assert(other.subrange(2, end) =~= input.subrange(2, end));
}

/// Every proper, non-empty part at the start of a match asks for more input.
pub proof fn start_of_match_is_partial(input: Seq<u8>, cut: int, backspace: Option<u8>)
    requires
        decoded_key(input, backspace) is Matched,
        0 < cut < decoded_key(input, backspace)->size,
    ensures
        decoded_key(input.take(cut), backspace) is Partial,
{
    scan_stops(input, 2);
    let other = input.take(cut);
    if cut >= 2 {
        scan_reaches(other, 2, cut);
    }
}

/// Where more input is asked for, no shorter start was refused, and the input is
/// within the length limit.
pub proof fn partial_is_bounded(input: Seq<u8>, cut: int, backspace: Option<u8>)
    requires
        decoded_key(input, backspace) is Partial,
        0 < cut <= input.len(),
    ensures
        decoded_key(input.take(cut), backspace) is Partial,
        input.len() <= MAX_SEQUENCE,
{
    let other = input.take(cut);
    if input.len() >= 2 {
        scan_stops(input, 2);
        if cut >= 2 {
            scan_reaches(other, 2, cut);
        }
    }
}

/// A refused input stays refused whatever follows it.
pub proof fn refusal_is_permanent(input: Seq<u8>, tail: Seq<u8>, backspace: Option<u8>)
    requires
        input.len() > 0,
        decoded_key(input, backspace) is Invalid,
    ensures
        decoded_key(input + tail, backspace) is Invalid,
{
    let other = input + tail;
    if input[0] == ESC && input.len() >= 2 && input[1] == '[' as u8 {
        let end = parameters_end(input, 2);
        scan_stops(input, 2);
        scan_reaches(other, 2, end);
        assert(other.subrange(2, end) =~= input.subrange(2, end));
    }
}

/// The fields of two strings joined by a semicolon are the fields of both.
pub proof fn fields_of_joined(left: Seq<u8>, right: Seq<u8>)
    ensures
        fields(left + seq![';' as u8] + right) == fields(left) + fields(right),
    decreases right.len(),
{
    let joined = left + seq![';' as u8] + right;
    if right.len() == 0 {
        assert(joined.drop_last() =~= left);
    } else {
        fields_of_joined(left, right.drop_last());
        fields_exist(right.drop_last());
        assert(joined.drop_last() =~= left + seq![';' as u8] + right.drop_last());
    }
}

/// Splitting yields at least one field.
proof fn fields_exist(payload: Seq<u8>)
    ensures
        fields(payload).len() > 0,
    decreases payload.len(),
{
    if payload.len() > 0 {
        fields_exist(payload.drop_last());
    }
}

/// A string of digits is a single field.
pub proof fn fields_of_digits(digits: Seq<u8>)
    requires
        all_digits(digits),
    ensures
        fields(digits) == seq![digits],
    decreases digits.len(),
{
    if digits.len() > 0 {
        let shorter = digits.drop_last();
        fields_of_digits(shorter);
        assert(shorter.push(digits.last()) =~= digits);
    } else {
        assert(digits =~= Seq::empty());
    }
}

/// A sequence made of `ESC [`, parameters and a terminator decodes by its fields.
pub proof fn decodes_by_fields(payload: Seq<u8>, last: u8, backspace: Option<u8>)
    requires
        forall|i: int| 0 <= i < payload.len() ==> parameter(#[trigger] payload[i]),
        payload.len() + 2 < MAX_SEQUENCE,
        terminator(last),
    ensures
        decoded_key(seq![ESC, '[' as u8] + payload + seq![last], backspace) == (match spelled_key(
            payload,
            last,
            backspace,
        ) {
            Some(key) => ExtendedKeyDecode::Matched { size: (payload.len() + 3) as usize, key },
            None => ExtendedKeyDecode::Invalid,
        }),
{
    let input = seq![ESC, '[' as u8] + payload + seq![last];
    let end = payload.len() + 2;
    scan_reaches(input, 2, end as int);
    assert(input.subrange(2, end as int) =~= payload);
}

/// A key as it reads after decoding: modifiers kept, flags dropped, and Meta marked
/// as part of the sequence.
pub open spec fn as_decoded(base: KeyCode, key: KeyCode) -> KeyCode {
    let with_shift = if (key & KEYC_SHIFT) != 0 { base | KEYC_SHIFT } else { base };
    let with_meta = if (key & KEYC_META) != 0 {
        with_shift | (KEYC_META | KEYC_IMPLIED_META)
    } else {
        with_shift
    };
    if (key & KEYC_CTRL) != 0 { with_meta | KEYC_CTRL } else { with_meta }
}

/// Reading back the modifier parameter restores the modifiers.
proof fn modifiers_read_back(base: KeyCode, key: KeyCode)
    requires
        modifier_parameter(key) is Some,
    ensures
        with_modifiers(base, modifier_parameter(key)->0 as u16) == as_decoded(base, key),
        2 <= modifier_parameter(key)->0 <= 8,
{
    assert({
        &&& 1u16 & 1 != 0 && 1u16 & 2 == 0 && 1u16 & 4 == 0 && 1u16 & 8 == 0
        &&& 2u16 & 1 == 0 && 2u16 & 2 != 0 && 2u16 & 4 == 0 && 2u16 & 8 == 0
        &&& 3u16 & 1 != 0 && 3u16 & 2 != 0 && 3u16 & 4 == 0 && 3u16 & 8 == 0
        &&& 4u16 & 1 == 0 && 4u16 & 2 == 0 && 4u16 & 4 != 0 && 4u16 & 8 == 0
        &&& 5u16 & 1 != 0 && 5u16 & 2 == 0 && 5u16 & 4 != 0 && 5u16 & 8 == 0
        &&& 6u16 & 1 == 0 && 6u16 & 2 != 0 && 6u16 & 4 != 0 && 6u16 & 8 == 0
        &&& 7u16 & 1 != 0 && 7u16 & 2 != 0 && 7u16 & 4 != 0 && 7u16 & 8 == 0
    }) by (bit_vector);
}

/// The decimal spelling of a number is made of parameter bytes and is short.
pub proof fn number_is_parameters(value: nat)
    requires
        value <= 0x10FFFF,
    ensures
        forall|i: int| 0 <= i < decimal(value).len() ==> parameter(#[trigger] decimal(value)[i]),
        all_digits(decimal(value)),
        decimal_value(decimal(value)) == value,
        0 < decimal(value).len() <= 7,
{
    decimal_reads_back(value);
    assert(vstd::arithmetic::power::pow(10, 7) == 10000000) by {
        reveal_with_fuel(vstd::arithmetic::power::pow, 8);
    }
    decimal_width(value, 7);
}

/// Two numbers with a semicolon between them are two fields of parameter bytes.
pub proof fn two_numbers(left: nat, right: nat)
    requires
        left <= 0x10FFFF,
        right <= 0x10FFFF,
    ensures
        ({
            let payload = decimal(left) + seq![';' as u8] + decimal(right);
            &&& fields(payload) == seq![decimal(left), decimal(right)]
            &&& forall|i: int| 0 <= i < payload.len() ==> parameter(#[trigger] payload[i])
            &&& payload.len() <= 15
        }),
{
    number_is_parameters(left);
    number_is_parameters(right);
    fields_of_joined(decimal(left), decimal(right));
    fields_of_digits(decimal(left));
    fields_of_digits(decimal(right));
}

/// A modified character that is spelled in either extended format decodes to itself,
/// with the whole spelling consumed.
///
/// Shift with Tab comes back under its own name, and Shift alone on a character that
/// reflects it is dropped.
pub proof fn extended_character_reads_back(
    key: KeyCode,
    format: ExtendedKeyFormat,
    backspace: Option<u8>,
)
    requires
        modifier_parameter(key) is Some,
        (key & KEYC_MASK_KEY) <= u32::MAX,
        is_scalar((key & KEYC_MASK_KEY) as u32),
        backspace is Some ==> backspace->0 != (key & KEYC_MASK_KEY),
    ensures
        ({
            let spelling = extended_form(key, format);
            &&& spelling is Some
            &&& decoded_key(spelling->0, backspace) == ExtendedKeyDecode::Matched {
                size: spelling->0.len() as usize,
                key: normalized(as_decoded(key & KEYC_MASK_KEY, key)),
            }
        }),
{
    let only = key & KEYC_MASK_KEY;
    let modifiers = modifier_parameter(key)->0;
    modifiers_read_back(only, key);
    character_has_no_cursor_form(key);
    number_is_parameters(only as nat);
    number_is_parameters(modifiers as nat);
    match format {
        ExtendedKeyFormat::CsiU => {
            let payload = decimal(only as nat) + seq![';' as u8] + decimal(modifiers as nat);
            two_numbers(only as nat, modifiers as nat);
            assert(extended_form(key, format)->0 =~= seq![ESC, '[' as u8] + payload
                + seq!['u' as u8]);
            decodes_by_fields(payload, 'u' as u8, backspace);
        },
        ExtendedKeyFormat::Xterm => {
            let rest = decimal(modifiers as nat) + seq![';' as u8] + decimal(only as nat);
            let prefix = seq!['2' as u8, '7' as u8];
            let payload = prefix + seq![';' as u8] + rest;
            two_numbers(modifiers as nat, only as nat);
            fields_of_joined(prefix, rest);
            fields_of_digits(prefix);
            assert(fields(payload) =~= seq![
                prefix,
                decimal(modifiers as nat),
                decimal(only as nat),
            ]);
            assert forall|i: int| 0 <= i < payload.len() implies parameter(
                #[trigger] payload[i],
            ) by {
                if i >= 3 {
                    assert(payload[i] == rest[i - 3]);
                }
            }
            assert(extended_form(key, format)->0 =~= seq![ESC, '[' as u8] + payload
                + seq!['~' as u8]);
            decodes_by_fields(payload, '~' as u8, backspace);
        },
    }
}

/// A character is not an arrow key, Home or End.
pub proof fn character_has_no_cursor_form(key: KeyCode)
    requires
        (key & KEYC_MASK_KEY) <= u32::MAX,
    ensures
        modified_cursor_form(key) is None,
{
    assert({
        let base = unmodified(key);
        base != KEYC_UP && base != KEYC_DOWN && base != KEYC_RIGHT && base != KEYC_LEFT && base
            != KEYC_END && base != KEYC_HOME
    }) by (bit_vector)
        requires
            (key & KEYC_MASK_KEY) <= u32::MAX,
    ;
}

/// A modified arrow key, Home or End decodes to itself in either format, with the
/// whole spelling consumed.
pub proof fn modified_cursor_key_reads_back(
    key: KeyCode,
    format: ExtendedKeyFormat,
    backspace: Option<u8>,
)
    requires
        modifier_parameter(key) is Some,
        cursor_final(unmodified(key)) is Some,
    ensures
        ({
            let spelling = extended_form(key, format);
            &&& spelling is Some
            &&& decoded_key(spelling->0, backspace) == ExtendedKeyDecode::Matched {
                size: spelling->0.len() as usize,
                key: as_decoded(unmodified(key), key),
            }
        }),
{
    let base = unmodified(key);
    let last = cursor_final(base)->0;
    let modifiers = modifier_parameter(key)->0;
    modifiers_read_back(base, key);
    two_numbers(1, modifiers as nat);
    number_is_parameters(modifiers as nat);
    number_is_parameters(1);
    let payload = decimal(1) + seq![';' as u8] + decimal(modifiers as nat);
    assert(extended_form(key, format)->0 =~= seq![ESC, '[' as u8] + payload + seq![last]);
    decodes_by_fields(payload, last, backspace);
    assert(normalized(as_decoded(base, key)) == as_decoded(base, key)) by {
        assert({
            let decoded = as_decoded(base, key);
            &&& (decoded & KEYC_MASK_KEY) != 0x09
            &&& (decoded & KEYC_MASK_KEY) > 0x7f
            &&& (decoded & KEYC_MASK_TYPE) != 0
        }) by (bit_vector)
            requires
                base == KEYC_UP || base == KEYC_DOWN || base == KEYC_RIGHT || base == KEYC_LEFT
                    || base == KEYC_END || base == KEYC_HOME,
        ;
    }
}

/// At the second extended level Shift-Tab is spelled so that it decodes to itself,
/// with its other modifiers kept.
pub proof fn backtab_reads_back(
    pane_mode: u32,
    format: ExtendedKeyFormat,
    key: KeyCode,
    erase: u8,
    backspace: Option<u8>,
)
    requires
        (pane_mode & MODE_KEYS_EXTENDED_2) != 0,
        backtab(key),
        backspace != Some(0x09u8),
    ensures
        ({
            let spelling = encoded_key(pane_mode, format, key, erase);
            &&& spelling is Some
            &&& decoded_key(spelling->0, backspace) == ExtendedKeyDecode::Matched {
                size: spelling->0.len() as usize,
                key: as_decoded(KEYC_BTAB, key & !KEYC_SHIFT),
            }
        }),
{
    let tab_key = (key & !KEYC_MASK_KEY) | 0x09 | KEYC_SHIFT;
    let format = if (pane_mode & MODE_KEYS_KITTY) != 0 { ExtendedKeyFormat::CsiU } else { format };
    assert((tab_key & KEYC_MASK_KEY) == 0x09 && (tab_key & KEYC_SHIFT) != 0) by (bit_vector)
        requires
            tab_key == (key & !KEYC_MASK_KEY) | 0x09 | KEYC_SHIFT,
    ;
    extended_character_reads_back(tab_key, format, backspace);
    assert({
        let decoded = as_decoded(0x09, tab_key);
        let named = KEYC_BTAB | (decoded & !KEYC_MASK_KEY & !KEYC_SHIFT);
        &&& (decoded & KEYC_MASK_KEY) == 0x09
        &&& (decoded & KEYC_SHIFT) != 0
        &&& named == as_decoded(KEYC_BTAB, key & !KEYC_SHIFT)
        &&& (named & KEYC_MASK_KEY) > 0x7f
        &&& (named & KEYC_MASK_TYPE) != 0
    }) by (bit_vector)
        requires
            tab_key == (key & !KEYC_MASK_KEY) | 0x09 | KEYC_SHIFT,
    ;
}

/// The keys with a legacy sequence are named keys other than Backspace.
pub proof fn sequences_are_for_named_keys(base: KeyCode)
    requires
        named_sequence(base) is Some,
    ensures
        KEYC_F1 <= (base & KEYC_MASK_KEY) <= (KEYC_KP_PERIOD & KEYC_MASK_KEY),
{
    assert(KEYC_F1 <= (base & KEYC_MASK_KEY) && (base & KEYC_MASK_KEY) <= (KEYC_KP_PERIOD
        & KEYC_MASK_KEY)) by (bit_vector)
        requires
        base == KEYC_F1
        || base == KEYC_F2
        || base == KEYC_F3
        || base == KEYC_F4
        || base == KEYC_F5
        || base == KEYC_F6
        || base == KEYC_F7
        || base == KEYC_F8
        || base == KEYC_F9
        || base == KEYC_F10
        || base == KEYC_F11
        || base == KEYC_F12
        || base == KEYC_IC
        || base == KEYC_DC
        || base == KEYC_HOME
        || base == KEYC_END
        || base == KEYC_PPAGE
        || base == KEYC_NPAGE
        || base == KEYC_BTAB
        || base == KEYC_UP
        || base == (KEYC_UP & !KEYC_CURSOR)
        || base == KEYC_DOWN
        || base == (KEYC_DOWN & !KEYC_CURSOR)
        || base == KEYC_RIGHT
        || base == (KEYC_RIGHT & !KEYC_CURSOR)
        || base == KEYC_LEFT
        || base == (KEYC_LEFT & !KEYC_CURSOR)
        || base == KEYC_KP_SLASH
        || base == (KEYC_KP_SLASH & !KEYC_KEYPAD)
        || base == KEYC_KP_STAR
        || base == (KEYC_KP_STAR & !KEYC_KEYPAD)
        || base == KEYC_KP_MINUS
        || base == (KEYC_KP_MINUS & !KEYC_KEYPAD)
        || base == KEYC_KP_SEVEN
        || base == (KEYC_KP_SEVEN & !KEYC_KEYPAD)
        || base == KEYC_KP_EIGHT
        || base == (KEYC_KP_EIGHT & !KEYC_KEYPAD)
        || base == KEYC_KP_NINE
        || base == (KEYC_KP_NINE & !KEYC_KEYPAD)
        || base == KEYC_KP_PLUS
        || base == (KEYC_KP_PLUS & !KEYC_KEYPAD)
        || base == KEYC_KP_FOUR
        || base == (KEYC_KP_FOUR & !KEYC_KEYPAD)
        || base == KEYC_KP_FIVE
        || base == (KEYC_KP_FIVE & !KEYC_KEYPAD)
        || base == KEYC_KP_SIX
        || base == (KEYC_KP_SIX & !KEYC_KEYPAD)
        || base == KEYC_KP_ONE
        || base == (KEYC_KP_ONE & !KEYC_KEYPAD)
        || base == KEYC_KP_TWO
        || base == (KEYC_KP_TWO & !KEYC_KEYPAD)
        || base == KEYC_KP_THREE
        || base == (KEYC_KP_THREE & !KEYC_KEYPAD)
        || base == KEYC_KP_ENTER
        || base == (KEYC_KP_ENTER & !KEYC_KEYPAD)
        || base == KEYC_KP_ZERO
        || base == (KEYC_KP_ZERO & !KEYC_KEYPAD)
        || base == KEYC_KP_PERIOD
        || base == (KEYC_KP_PERIOD & !KEYC_KEYPAD),
    ;
}

/// A modified arrow key, Home or End has one spelling in every pane mode and format,
/// and it decodes to itself.
pub proof fn modified_cursor_keys_read_back_in_every_mode(
    pane_mode: u32,
    format: ExtendedKeyFormat,
    key: KeyCode,
    erase: u8,
    backspace: Option<u8>,
)
    requires
        modifier_parameter(key) is Some,
        cursor_final(unmodified(key)) is Some,
    ensures
        ({
            let spelling = encoded_key(pane_mode, format, key, erase);
            &&& spelling is Some
            &&& spelling == modified_cursor_form(key)
            &&& decoded_key(spelling->0, backspace) == ExtendedKeyDecode::Matched {
                size: spelling->0.len() as usize,
                key: as_decoded(unmodified(key), key),
            }
        }),
{
    let base = unmodified(key);
    modified_cursor_key_reads_back(key, format, backspace);
    modifier_bits(key);
    assert({
        &&& (key & KEYC_MASK_KEY) == (base & KEYC_MASK_KEY)
        &&& (base & KEYC_MASK_KEY) != (KEYC_BTAB & KEYC_MASK_KEY)
        &&& (base & KEYC_MASK_KEY) != KEYC_BSPACE
    }) by (bit_vector)
        requires
            base == unmodified(key),
            base == KEYC_UP || base == KEYC_DOWN || base == KEYC_RIGHT || base == KEYC_LEFT || base
                == KEYC_END || base == KEYC_HOME,
    ;
    assert((key & (KEYC_SHIFT | KEYC_CTRL | KEYC_META | KEYC_IMPLIED_META)) != 0) by (bit_vector)
        requires
            (key & KEYC_SHIFT) != 0 || (key & KEYC_META) != 0 || (key & KEYC_CTRL) != 0,
    ;
}

/// At the second extended level a modified character is spelled so that it decodes to
/// itself, in the format that is in force.
pub proof fn modified_characters_read_back(
    pane_mode: u32,
    format: ExtendedKeyFormat,
    key: KeyCode,
    erase: u8,
    backspace: Option<u8>,
)
    requires
        (pane_mode & MODE_KEYS_EXTENDED_2) != 0,
        modifier_parameter(key) is Some,
        (key & KEYC_MASK_KEY) <= u32::MAX,
        is_scalar((key & KEYC_MASK_KEY) as u32),
        backspace is Some ==> backspace->0 != (key & KEYC_MASK_KEY),
    ensures
        ({
            let spelling = encoded_key(pane_mode, format, key, erase);
            &&& spelling is Some
            &&& decoded_key(spelling->0, backspace) == ExtendedKeyDecode::Matched {
                size: spelling->0.len() as usize,
                key: normalized(as_decoded(key & KEYC_MASK_KEY, key)),
            }
        }),
{
    let base = key & !(KEYC_META | KEYC_IMPLIED_META);
    let in_force = if (pane_mode & MODE_KEYS_KITTY) != 0 {
        ExtendedKeyFormat::CsiU
    } else {
        format
    };
    extended_character_reads_back(key, in_force, backspace);
    modifier_bits(key);
    assert((KEYC_BTAB & KEYC_MASK_KEY) == 0x2_0000_001a) by (bit_vector);
    assert((base & KEYC_MASK_KEY) == (key & KEYC_MASK_KEY)) by (bit_vector)
        requires
            base == key & !(KEYC_META | KEYC_IMPLIED_META),
    ;
    if standard_sequence(key) is Some {
        sequences_are_for_named_keys(base);
    }
    assert((key & (KEYC_SHIFT | KEYC_CTRL | KEYC_META | KEYC_IMPLIED_META)) != 0) by (bit_vector)
        requires
            (key & KEYC_SHIFT) != 0 || (key & KEYC_META) != 0 || (key & KEYC_CTRL) != 0,
    ;
}

/// The bits that stand for no modifier are clear.
pub open spec fn known_modifiers(key: KeyCode) -> bool {
    (key & KEYC_MASK_MODIFIERS) == (key & (KEYC_SHIFT | KEYC_META | KEYC_CTRL))
}

/// Backspace is the erase byte, with the escape byte before it under Meta, in every
/// pane mode, in either format and whatever the other modifiers.
pub proof fn backspace_is_the_erase_byte(
    pane_mode: u32,
    format: ExtendedKeyFormat,
    key: KeyCode,
    backspace: u8,
)
    requires
        (key & KEYC_MASK_KEY) == KEYC_BSPACE,
        known_modifiers(key),
    ensures
        encoded_key(pane_mode, format, key, backspace) == Some(
            if (key & KEYC_META) != 0 {
                seq![ESC, backspace]
            } else {
                seq![backspace]
            },
        ),
{
    let active = with_active_flags(pane_mode, key);
    active_flags_keep_the_rest(pane_mode, key);
    modifier_bits(key);
    assert((KEYC_BTAB & KEYC_MASK_KEY) != KEYC_BSPACE) by (bit_vector);
    assert({
        let base = unmodified(key);
        &&& base != KEYC_UP && base != KEYC_DOWN && base != KEYC_RIGHT && base != KEYC_LEFT
        &&& base != KEYC_END && base != KEYC_HOME
        &&& (key & KEYC_MASK_TYPE) != 0
        &&& (key & KEYC_MASK_MODIFIERS) == 0 ==> (key & KEYC_META) == 0
        &&& (key & (KEYC_SHIFT | KEYC_CTRL | KEYC_META | KEYC_IMPLIED_META)) == 0 ==> (key
            & KEYC_MASK_MODIFIERS) == 0
    }) by (bit_vector)
        requires
            (key & KEYC_MASK_KEY) == KEYC_BSPACE,
            known_modifiers(key),
    ;
    assert({
        let plain = active & !(KEYC_META | KEYC_IMPLIED_META);
        let no_cursor = (active & !KEYC_CURSOR) & !(KEYC_META | KEYC_IMPLIED_META);
        let no_keypad = (active & !KEYC_KEYPAD) & !(KEYC_META | KEYC_IMPLIED_META);
        &&& (plain & KEYC_MASK_KEY) == (active & KEYC_MASK_KEY)
        &&& (no_cursor & KEYC_MASK_KEY) == (active & KEYC_MASK_KEY)
        &&& (no_keypad & KEYC_MASK_KEY) == (active & KEYC_MASK_KEY)
    }) by (bit_vector);
    assert(standard_sequence_with_fallback(active) is None) by {
        if standard_sequence(active) is Some {
            sequences_are_for_named_keys(active & !(KEYC_META | KEYC_IMPLIED_META));
        }
        if standard_sequence(active & !KEYC_CURSOR) is Some {
            sequences_are_for_named_keys((active & !KEYC_CURSOR) & !(KEYC_META | KEYC_IMPLIED_META));
        }
        if standard_sequence(active & !KEYC_KEYPAD) is Some {
            sequences_are_for_named_keys((active & !KEYC_KEYPAD) & !(KEYC_META | KEYC_IMPLIED_META));
        }
    }
}

/// Under the kitty protocol the configured format makes no difference.
pub proof fn kitty_overrides_the_format(
    pane_mode: u32,
    one: ExtendedKeyFormat,
    other: ExtendedKeyFormat,
    key: KeyCode,
    backspace: u8,
)
    requires
        (pane_mode & MODE_KEYS_KITTY) != 0,
    ensures
        encoded_key(pane_mode, one, key, backspace) == encoded_key(
            pane_mode,
            other,
            key,
            backspace,
        ),
{
}

/// A character without modifiers is sent as itself, whatever the pane mode, the
/// format and the erase byte.
pub proof fn plain_characters_are_sent_as_themselves(
    pane_mode: u32,
    format: ExtendedKeyFormat,
    key: KeyCode,
    backspace: u8,
)
    requires
        trivial_key(key),
        (key & KEYC_MASK_KEY) != KEYC_BSPACE,
    ensures
        encoded_key(pane_mode, format, key, backspace) == character_form(key),
{
    assert((key & KEYC_MASK_TYPE) == 0 || (key & KEYC_MASK_KEY) <= 0x7f ==> (key
        & KEYC_MASK_KEY) != (KEYC_BTAB & KEYC_MASK_KEY)) by (bit_vector);
}

/// A named key under no modifier but Meta has its legacy form whatever extended mode
/// and format are in force, and it is never lost.
pub proof fn named_keys_keep_their_legacy_form(
    pane_mode: u32,
    format: ExtendedKeyFormat,
    key: KeyCode,
    backspace: u8,
)
    requires
        standard_sequence(key) is Some,
        (key & (KEYC_SHIFT | KEYC_CTRL)) == 0,
        !backtab(key),
    ensures
        encoded_key(pane_mode, format, key, backspace) == vt10x_form(pane_mode, key, backspace),
        encoded_key(pane_mode, format, key, backspace) is Some,
{
    let base = key & !(KEYC_META | KEYC_IMPLIED_META);
    let active = with_active_flags(pane_mode, key);
    sequences_are_for_named_keys(base);
    active_flags_keep_the_rest(pane_mode, key);
    assert((base & KEYC_MASK_KEY) == (key & KEYC_MASK_KEY)) by (bit_vector)
        requires
            base == key & !(KEYC_META | KEYC_IMPLIED_META),
    ;
    assert((key & KEYC_MASK_TYPE) != 0 && (KEYC_KP_PERIOD & KEYC_MASK_KEY)
        == 0x2_0000_002e) by (bit_vector)
        requires
            KEYC_F1 <= (key & KEYC_MASK_KEY),
            (key & KEYC_MASK_KEY) <= (KEYC_KP_PERIOD & KEYC_MASK_KEY),
    ;
    assert((active & KEYC_CTRL) == 0 && (active & KEYC_CTRL) != KEYC_CTRL) by (bit_vector)
        requires
            (active & KEYC_CTRL) == (key & KEYC_CTRL),
            (key & (KEYC_SHIFT | KEYC_CTRL)) == 0,
    ;
    modifier_bits(active);
}

/// At the second extended level a named key with Shift or Control is spelled in an
/// extended form. It is neither lost nor sent as the control byte that its number
/// would make.
pub proof fn modified_named_keys_are_spelled_out(
    pane_mode: u32,
    format: ExtendedKeyFormat,
    key: KeyCode,
    backspace: u8,
)
    requires
        (pane_mode & MODE_KEYS_EXTENDED_2) != 0,
        (key & KEYC_MASK_TYPE) != 0,
        (key & (KEYC_SHIFT | KEYC_CTRL)) != 0,
        (key & KEYC_MASK_KEY) != KEYC_BSPACE,
        !backtab(key),
    ensures
        ({
            let format = if (pane_mode & MODE_KEYS_KITTY) != 0 {
                ExtendedKeyFormat::CsiU
            } else {
                format
            };
            let bytes = encoded_key(pane_mode, format, key, backspace);
            &&& bytes is Some
            &&& bytes == extended_form(key, format)
            &&& bytes->0.len() > 2
            &&& bytes->0[0] == ESC
            &&& bytes->0[1] == '[' as u8
        }),
{
    assert((key & (KEYC_SHIFT | KEYC_CTRL | KEYC_META | KEYC_IMPLIED_META)) != 0 && ((key
        & KEYC_SHIFT) != 0 || (key & KEYC_CTRL) != 0)) by (bit_vector)
        requires
            (key & (KEYC_SHIFT | KEYC_CTRL)) != 0,
    ;
}

/// Outside the second extended level, Control with a digit that has no control byte
/// sends nothing.
pub proof fn control_digits_send_nothing(
    pane_mode: u32,
    format: ExtendedKeyFormat,
    key: KeyCode,
    backspace: u8,
)
    requires
        (pane_mode & MODE_KEYS_EXTENDED_2) == 0,
        noop_control_key(key, key & KEYC_MASK_KEY),
    ensures
        encoded_key(pane_mode, format, key, backspace) == Some(Seq::<u8>::empty()),
{
    modifier_bits(key);
    active_flags_keep_the_rest(pane_mode, key);
    active_flags_keep_the_rest(0, key);
    modifier_bits(with_active_flags(pane_mode, key));
    modifier_bits(with_active_flags(0, key));
    assert((KEYC_BTAB & KEYC_MASK_KEY) == 0x2_0000_001a) by (bit_vector);
    assert((key & (KEYC_SHIFT | KEYC_CTRL)) != 0 && (key & (KEYC_SHIFT | KEYC_CTRL | KEYC_META
        | KEYC_IMPLIED_META)) != 0 && (key & KEYC_MASK_MODIFIERS) != 0) by (bit_vector)
        requires
            (key & (KEYC_CTRL | KEYC_META | KEYC_SHIFT)) == KEYC_CTRL,
    ;
    character_has_no_cursor_form(key);
}

} // verus!
