//! Which key an extended spelling stands for.
use crate::bytes::{all_digits, decimal, decimal_value, ESC};
use crate::input_keys::{encoded_key, ExtendedKeyFormat};
use crate::key_code::{
    KeyCode, KEYC_BTAB, KEYC_CTRL, KEYC_IMPLIED_META, KEYC_MASK_KEY, KEYC_MASK_MODIFIERS,
    KEYC_MASK_TYPE, KEYC_META, KEYC_SHIFT,
};
use crate::key_decode::{
    decoded_key, fields, fields_are_digits, normalized, parameter, parameters_end, with_modifiers,
    ExtendedKeyDecode,
};
use crate::key_laws::{
    decodes_by_fields, fields_of_digits, fields_of_joined, number_is_parameters, scan_reaches,
    scan_stops,
};
use crate::key_press_laws::{modified_characters_are_spelled_out, modifier_digit, pressed};
use crate::pane_mode::{MODE_KEYS_EXTENDED_2, MODE_KEYS_KITTY};
use vstd::prelude::*;
use vstd::utf8::*;

verus! {

/// A key read together with modifiers; Meta is marked as part of the sequence.
pub open spec fn read(base: KeyCode, shift: bool, meta: bool, ctrl: bool) -> KeyCode {
    pressed(base, shift, meta, ctrl) | (if meta {
        KEYC_IMPLIED_META
    } else {
        0
    })
}

/// Shift, as a modifier parameter names it: the ones place of what exceeds one.
pub open spec fn names_shift(number: nat) -> bool {
    number >= 1 && (number - 1) % 2 == 1
}

/// Meta, as a modifier parameter names it: the twos or the eights.
pub open spec fn names_meta(number: nat) -> bool {
    number >= 1 && (((number - 1) / 2) % 2 == 1 || ((number - 1) / 8) % 2 == 1)
}

/// Control, as a modifier parameter names it: the fours.
pub open spec fn names_ctrl(number: nat) -> bool {
    number >= 1 && ((number - 1) / 4) % 2 == 1
}

/// A string of one or more digits.
pub open spec fn spells_number(digits: Seq<u8>) -> bool {
    &&& digits.len() > 0
    &&& forall|i: int| 0 <= i < digits.len() ==> 0x30 <= #[trigger] digits[i] <= 0x39
}

/// The modifiers that a parameter names, set on a key.
proof fn modifiers_are_set(base: KeyCode, number: u16)
    requires
        base <= 0x10FFFF || base == 0x2_0000_0007 || 0x2_0000_0016 <= base <= 0x2_0000_0017
            || 0x0004_0002_0000_001b <= base <= 0x0004_0002_0000_001e,
    ensures
        with_modifiers(base, number) == read(
            base,
            names_shift(number as nat),
            names_meta(number as nat),
            names_ctrl(number as nat),
        ),
{
    if number > 0 {
        let bits = (number - 1) as u16;
        assert({
            &&& ((bits & 1) != 0) == (bits % 2 == 1)
            &&& ((bits & 2) != 0) == ((bits / 2) % 2 == 1)
            &&& ((bits & 4) != 0) == ((bits / 4) % 2 == 1)
            &&& ((bits & 8) != 0) == ((bits / 8) % 2 == 1)
        }) by (bit_vector);
    }
    let shift = names_shift(number as nat);
    let meta = names_meta(number as nat);
    let ctrl = names_ctrl(number as nat);
    assert({
        let with_shift = if shift { base | KEYC_SHIFT } else { base };
        let with_meta = if meta {
            with_shift | (KEYC_META | KEYC_IMPLIED_META)
        } else {
            with_shift
        };
        let with_ctrl = if ctrl { with_meta | KEYC_CTRL } else { with_meta };
        let again = with_shift | (KEYC_META | KEYC_IMPLIED_META);
        let later = if ctrl { with_shift | KEYC_CTRL } else { with_shift };
        &&& with_ctrl == read(base, shift, meta, ctrl)
        &&& meta ==> (with_ctrl | (KEYC_META | KEYC_IMPLIED_META)) == with_ctrl
        &&& meta ==> (later | (KEYC_META | KEYC_IMPLIED_META)) == with_ctrl
        &&& !shift && !meta && !ctrl ==> read(base, shift, meta, ctrl) == base
    }) by (bit_vector);
}

/// What reading makes of a key with its modifiers.
proof fn read_key_is_normal(base: KeyCode, shift: bool, meta: bool, ctrl: bool)
    requires
        base <= 0x10FFFF || base == 0x2_0000_0007 || 0x2_0000_0016 <= base <= 0x2_0000_0017
            || 0x0004_0002_0000_001b <= base <= 0x0004_0002_0000_001e,
    ensures
        normalized(read(base, shift, meta, ctrl)) == (if base == 0x09 && shift {
            read(0x2_0000_001a, false, meta, ctrl)
        } else if shift && !meta && !ctrl && (0x21 <= base <= 0x7e || 0x7f < base <= 0x10FFFF) {
            base
        } else {
            read(base, shift, meta, ctrl)
        }),
{
    assert({
        let key = read(base, shift, meta, ctrl);
        let named = read(0x2_0000_001a, false, meta, ctrl);
        &&& ((key & KEYC_SHIFT) != 0) == shift
        &&& base <= 0x2_0000_0017 ==> (key & KEYC_MASK_KEY) == base
        &&& base > 0x2_0000_0017 ==> (key & KEYC_MASK_KEY) > 0x10FFFF
        &&& ((key & KEYC_MASK_TYPE) == 0) == (base <= 0x10FFFF)
        &&& ((key & KEYC_MASK_MODIFIERS) == KEYC_SHIFT) == (shift && !meta && !ctrl)
        &&& shift && !meta && !ctrl ==> (key & !KEYC_SHIFT) == base
        &&& base == 0x09 ==> (KEYC_BTAB | (key & !KEYC_MASK_KEY & !KEYC_SHIFT)) == named
        &&& (named & KEYC_MASK_TYPE) != 0
        &&& (named & KEYC_MASK_KEY) == 0x2_0000_001a
    }) by (bit_vector)
        requires
            base <= 0x10FFFF || base == 0x2_0000_0007 || 0x2_0000_0016 <= base && base
                <= 0x2_0000_0017 || 0x0004_0002_0000_001b <= base && base
                <= 0x0004_0002_0000_001e,
    ;
}

/// Two strings of digits with a semicolon between them are two fields.
proof fn joined_digits(left: Seq<u8>, right: Seq<u8>)
    requires
        spells_number(left),
        spells_number(right),
    ensures
        ({
            let payload = left + seq![';' as u8] + right;
            &&& all_digits(left)
            &&& all_digits(right)
            &&& fields(payload) == seq![left, right]
            &&& forall|i: int| 0 <= i < payload.len() ==> parameter(#[trigger] payload[i])
        }),
{
    assert forall|i: int| 0 <= i < left.len() implies crate::bytes::is_digit(#[trigger] left[i]) by {
        assert(0x30 <= left[i] <= 0x39);
    }
    assert forall|i: int| 0 <= i < right.len() implies crate::bytes::is_digit(
        #[trigger] right[i],
    ) by {
        assert(0x30 <= right[i] <= 0x39);
    }
    fields_of_joined(left, right);
    fields_of_digits(left);
    fields_of_digits(right);
}

/// `ESC [ number ; modifiers u` and `ESC [ 27 ; modifiers ; number ~` are read as the
/// character of that number with those modifiers, Meta being marked as part of the
/// sequence. Tab with Shift is the key with a name of its own, and Shift is dropped only
/// where it is the sole modifier of a printable character. The number of the erase byte
/// is Backspace.
#[verifier::rlimit(40)]
pub proof fn spelled_characters_are_read(
    number: Seq<u8>,
    modifiers: Seq<u8>,
    erase: Option<u8>,
)
    requires
        spells_number(number),
        spells_number(modifiers),
        number.len() + modifiers.len() <= 57,
        decimal_value(modifiers) <= 0xffff,
        decimal_value(number) <= 0x10FFFF,
        is_scalar(decimal_value(number) as u32),
    ensures
        ({
            let code = decimal_value(number) as u64;
            let shift = names_shift(decimal_value(modifiers));
            let meta = names_meta(decimal_value(modifiers));
            let ctrl = names_ctrl(decimal_value(modifiers));
            let key = if erase is Some && erase->0 == code {
                read(0x2_0000_0007, shift, meta, ctrl)
            } else if code == 0x09 && shift {
                read(0x2_0000_001a, false, meta, ctrl)
            } else if shift && !meta && !ctrl && (0x21 <= code <= 0x7e || code > 0x7f) {
                code
            } else {
                read(code, shift, meta, ctrl)
            };
            &&& decoded_key(
                seq![0x1bu8, 0x5b] + number + seq![0x3bu8] + modifiers + seq![0x75u8],
                erase,
            ) == ExtendedKeyDecode::Matched {
                size: (number.len() + modifiers.len() + 4) as usize,
                key,
            }
            &&& decoded_key(
                seq![0x1bu8, 0x5b, 0x32, 0x37, 0x3b] + modifiers + seq![0x3bu8] + number
                    + seq![0x7eu8],
                erase,
            ) == ExtendedKeyDecode::Matched {
                size: (number.len() + modifiers.len() + 7) as usize,
                key,
            }
        }),
{
    let code = decimal_value(number) as u64;
    let base: u64 = if erase is Some && erase->0 == code {
        0x2_0000_0007
    } else {
        code
    };
    let value = decimal_value(modifiers) as u16;
    modifiers_are_set(base, value);
    read_key_is_normal(
        base,
        names_shift(value as nat),
        names_meta(value as nat),
        names_ctrl(value as nat),
    );
    joined_digits(number, modifiers);
    let first = number + seq![';' as u8] + modifiers;
    assert(seq![0x1bu8, 0x5b] + number + seq![0x3bu8] + modifiers + seq![0x75u8] =~= seq![
        ESC,
        '[' as u8,
    ] + first + seq!['u' as u8]);
    decodes_by_fields(first, 'u' as u8, erase);
    joined_digits(modifiers, number);
    let rest = modifiers + seq![';' as u8] + number;
    let prefix = seq!['2' as u8, '7' as u8];
    let second = prefix + seq![';' as u8] + rest;
    fields_of_joined(prefix, rest);
    fields_of_digits(prefix);
    assert(fields(second) =~= seq![prefix, modifiers, number]);
    assert forall|i: int| 0 <= i < second.len() implies parameter(#[trigger] second[i]) by {
        if i >= 3 {
            assert(second[i] == rest[i - 3]);
        }
    }
    assert(seq![0x1bu8, 0x5b, 0x32, 0x37, 0x3b] + modifiers + seq![0x3bu8] + number + seq![0x7eu8]
        =~= seq![ESC, '[' as u8] + second + seq!['~' as u8]);
    decodes_by_fields(second, '~' as u8, erase);
}

/// `ESC [ number ; modifiers letter` is read as the arrow key, Home or End of that letter
/// with those modifiers, whatever the number.
#[verifier::rlimit(40)]
pub proof fn spelled_arrows_are_read(
    number: Seq<u8>,
    modifiers: Seq<u8>,
    letter: u8,
    erase: Option<u8>,
)
    requires
        spells_number(number),
        spells_number(modifiers),
        number.len() + modifiers.len() <= 57,
        decimal_value(modifiers) <= 0xffff,
        decimal_value(number) <= 0xffff,
        0x41 <= letter <= 0x44 || letter == 0x46 || letter == 0x48,
    ensures
        ({
            let base: u64 = if letter == 0x41 {
                0x0004_0002_0000_001b
            } else if letter == 0x42 {
                0x0004_0002_0000_001c
            } else if letter == 0x43 {
                0x0004_0002_0000_001e
            } else if letter == 0x44 {
                0x0004_0002_0000_001d
            } else if letter == 0x46 {
                0x2_0000_0017
            } else {
                0x2_0000_0016
            };
            decoded_key(
                seq![0x1bu8, 0x5b] + number + seq![0x3bu8] + modifiers + seq![letter],
                erase,
            ) == ExtendedKeyDecode::Matched {
                size: (number.len() + modifiers.len() + 4) as usize,
                key: read(
                    base,
                    names_shift(decimal_value(modifiers)),
                    names_meta(decimal_value(modifiers)),
                    names_ctrl(decimal_value(modifiers)),
                ),
            }
        }),
{
    let base: u64 = if letter == 0x41 {
        0x0004_0002_0000_001b
    } else if letter == 0x42 {
        0x0004_0002_0000_001c
    } else if letter == 0x43 {
        0x0004_0002_0000_001e
    } else if letter == 0x44 {
        0x0004_0002_0000_001d
    } else if letter == 0x46 {
        0x2_0000_0017
    } else {
        0x2_0000_0016
    };
    let value = decimal_value(modifiers) as u16;
    modifiers_are_set(base, value);
    read_key_is_normal(
        base,
        names_shift(value as nat),
        names_meta(value as nat),
        names_ctrl(value as nat),
    );
    joined_digits(number, modifiers);
    let payload = number + seq![';' as u8] + modifiers;
    assert(seq![0x1bu8, 0x5b] + number + seq![0x3bu8] + modifiers + seq![letter] =~= seq![
        ESC,
        '[' as u8,
    ] + payload + seq![letter]);
    decodes_by_fields(payload, letter, erase);
}

/// A character under two or more of Shift, Meta and Control is read back, from the spelling
/// that the second extended level gives it, as exactly that character with those modifiers
/// and the mark of a spelled Meta; Tab with Shift aside.
#[verifier::rlimit(40)]
pub proof fn modified_characters_return(
    pane_mode: u32,
    format: ExtendedKeyFormat,
    base: KeyCode,
    shift: bool,
    meta: bool,
    ctrl: bool,
    erase: u8,
    backspace: Option<u8>,
)
    requires
        (pane_mode & MODE_KEYS_EXTENDED_2) != 0,
        base <= 0x10FFFF,
        is_scalar(base as u32),
        backspace is Some ==> backspace->0 != base,
        shift || meta || ctrl,
    ensures
        ({
            let sent = encoded_key(pane_mode, format, pressed(base, shift, meta, ctrl), erase);
            let key = if meta {
                pressed(base, shift, meta, ctrl) | KEYC_IMPLIED_META
            } else {
                pressed(base, shift, meta, ctrl)
            };
            let came_back = decoded_key(sent->0, backspace);
            &&& sent is Some
            &&& came_back is Matched
            &&& came_back->size == sent->0.len()
            &&& meta || ctrl ==> !(base == 0x09 && shift) ==> came_back->key == key
            &&& !meta && !ctrl && base != 0x09 ==> came_back->key == (if 0x21 <= base <= 0x7e
                || base > 0x7f {
                base
            } else {
                key
            })
        }),
{
    let xterm = (pane_mode & MODE_KEYS_KITTY) == 0 && format is Xterm;
    modified_characters_are_spelled_out(pane_mode, format, base, shift, meta, ctrl, erase);
    let sent = encoded_key(pane_mode, format, pressed(base, shift, meta, ctrl), erase);
    spelled_out_character_returns(xterm, sent->0, base, shift, meta, ctrl, backspace);
}

/// A spelling of a character and the digit of its modifiers is read as that character with
/// those modifiers.
#[verifier::rlimit(40)]
proof fn spelled_out_character_returns(
    xterm: bool,
    spelling: Seq<u8>,
    base: KeyCode,
    shift: bool,
    meta: bool,
    ctrl: bool,
    backspace: Option<u8>,
)
    requires
        base <= 0x10FFFF,
        is_scalar(base as u32),
        backspace is Some ==> backspace->0 != base,
        shift || meta || ctrl,
        spelling == (if xterm {
            seq![0x1bu8, 0x5b, 0x32, 0x37, 0x3b, modifier_digit(shift, meta, ctrl), 0x3b] + decimal(
                base as nat,
            ) + seq![0x7eu8]
        } else {
            seq![0x1bu8, 0x5b] + decimal(base as nat) + seq![
                0x3bu8,
                modifier_digit(shift, meta, ctrl),
                0x75,
            ]
        }),
    ensures
        ({
            let key = if meta {
                pressed(base, shift, meta, ctrl) | KEYC_IMPLIED_META
            } else {
                pressed(base, shift, meta, ctrl)
            };
            let came_back = decoded_key(spelling, backspace);
            &&& came_back is Matched
            &&& came_back->size == spelling.len()
            &&& meta || ctrl ==> !(base == 0x09 && shift) ==> came_back->key == key
            &&& !meta && !ctrl && base != 0x09 ==> came_back->key == (if 0x21 <= base <= 0x7e
                || base > 0x7f {
                base
            } else {
                key
            })
        }),
{
    let number = decimal(base as nat);
    let modifiers = seq![modifier_digit(shift, meta, ctrl)];
    digit_names_modifiers(shift, meta, ctrl);
    number_spells_itself(base as nat);
    if xterm {
        assert(spelling =~= seq![0x1bu8, 0x5b, 0x32, 0x37, 0x3b] + modifiers + seq![0x3bu8]
            + number + seq![0x7eu8]);
    } else {
        assert(spelling =~= seq![0x1bu8, 0x5b] + number + seq![0x3bu8] + modifiers + seq![0x75u8]);
    }
    spelled_characters_are_read(number, modifiers, backspace);
    let plain = pressed(base, shift, meta, ctrl);
    assert((plain | 0) == plain) by (bit_vector);
}

/// The digit of a combination of modifiers names those modifiers.
proof fn digit_names_modifiers(shift: bool, meta: bool, ctrl: bool)
    ensures
        ({
            let modifiers = seq![modifier_digit(shift, meta, ctrl)];
            &&& spells_number(modifiers)
            &&& decimal_value(modifiers) <= 8
            &&& names_shift(decimal_value(modifiers)) == shift
            &&& names_meta(decimal_value(modifiers)) == meta
            &&& names_ctrl(decimal_value(modifiers)) == ctrl
        }),
{
    let modifiers = seq![modifier_digit(shift, meta, ctrl)];
    assert(decimal_value(modifiers) == modifier_digit(shift, meta, ctrl) - 0x30) by {
        assert(modifiers.drop_last() =~= Seq::<u8>::empty());
        assert(decimal_value(Seq::<u8>::empty()) == 0);
    }
}

/// The decimal spelling of a number is a string of digits that spells it.
proof fn number_spells_itself(value: nat)
    requires
        value <= 0x10FFFF,
    ensures
        spells_number(decimal(value)),
        decimal(value).len() <= 7,
        decimal_value(decimal(value)) == value,
{
    number_is_parameters(value);
    let number = decimal(value);
    assert forall|i: int| 0 <= i < number.len() implies 0x30 <= #[trigger] number[i] <= 0x39 by {
        assert(crate::bytes::is_digit(number[i]));
    }
}

/// The fields, joined again, are the parameters.
proof fn fields_make_the_payload(payload: Seq<u8>)
    ensures
        ({
            let parts = fields(payload);
            &&& parts.len() > 0
            &&& parts.len() == 1 ==> payload == parts[0]
            &&& parts.len() == 2 ==> payload == parts[0] + seq![';' as u8] + parts[1]
            &&& parts.len() == 3 ==> payload == parts[0] + seq![';' as u8] + parts[1] + seq![
                ';' as u8,
            ] + parts[2]
        }),
    decreases payload.len(),
{
    let parts = fields(payload);
    if payload.len() == 0 {
        assert(payload =~= parts[0]);
    } else {
        let before = fields(payload.drop_last());
        fields_make_the_payload(payload.drop_last());
        assert(payload =~= payload.drop_last().push(payload.last()));
        if parts.len() == 1 {
            assert(payload =~= parts[0]);
        } else if parts.len() == 2 {
            assert(payload =~= parts[0] + seq![';' as u8] + parts[1]);
        } else if parts.len() == 3 {
            assert(payload =~= parts[0] + seq![';' as u8] + parts[1] + seq![';' as u8] + parts[2]);
        }
    }
}

/// Nothing else is read as a key: a match is `ESC [ number ; modifiers` and one of `u`,
/// `A`, `B`, `C`, `D`, `F` and `H`, or `ESC [ 27 ; modifiers ; number ~`.
#[verifier::rlimit(40)]
pub proof fn matches_have_a_known_shape(input: Seq<u8>, erase: Option<u8>)
    requires
        decoded_key(input, erase) is Matched,
    ensures
        ({
            let taken = input.take(decoded_key(input, erase)->size as int);
            let last = taken.last();
            &&& decoded_key(input, erase)->size <= input.len()
            &&& exists|number: Seq<u8>, modifiers: Seq<u8>|
                {
                    &&& #[trigger] spells_number(number)
                    &&& #[trigger] spells_number(modifiers)
                    &&& decimal_value(modifiers) <= 0xffff
                    &&& if last == 0x7e {
                        taken == seq![0x1bu8, 0x5b, 0x32, 0x37, 0x3b] + modifiers + seq![0x3bu8]
                            + number + seq![0x7eu8]
                    } else {
                        &&& taken == seq![0x1bu8, 0x5b] + number + seq![0x3bu8] + modifiers + seq![
                            last,
                        ]
                        &&& last == 0x75 || decimal_value(number) <= 0xffff && (0x41 <= last
                            <= 0x44 || last == 0x46 || last == 0x48)
                    }
                    &&& last == 0x75 || last == 0x7e ==> (erase is Some && decimal_value(number)
                        == erase->0) || (decimal_value(number) <= 0x10FFFF && is_scalar(
                        decimal_value(number) as u32,
                    ))
                }
        }),
{
    let end = parameters_end(input, 2);
    scan_stops(input, 2);
    let payload = input.subrange(2, end);
    let parts = fields(payload);
    let last = input[end];
    let taken = input.take(end + 1);
    assert forall|i: int| 0 <= i < payload.len() implies parameter(#[trigger] payload[i]) by {
        assert(payload[i] == input[i + 2]);
    }
    fields_are_digits(payload);
    fields_make_the_payload(payload);
    assert(taken =~= seq![0x1bu8, 0x5b] + payload + seq![last]);
    assert forall|i: int| 0 <= i < parts.len() && parts[i].len() > 0 implies spells_number(
        #[trigger] parts[i],
    ) by {
        assert(all_digits(parts[i]));
        assert forall|j: int| 0 <= j < parts[i].len() implies 0x30 <= #[trigger] parts[i][j]
            <= 0x39 by {
            assert(crate::bytes::is_digit(parts[i][j]));
        }
    }
    if last == '~' as u8 {
        assert(taken =~= seq![0x1bu8, 0x5b, 0x32, 0x37, 0x3b] + parts[1] + seq![0x3bu8] + parts[2]
            + seq![0x7eu8]);
        assert(spells_number(parts[2]) && spells_number(parts[1]));
    } else {
        assert(taken =~= seq![0x1bu8, 0x5b] + parts[0] + seq![0x3bu8] + parts[1] + seq![last]);
        assert(spells_number(parts[0]) && spells_number(parts[1]));
    }
}

/// A sequence is given up once its parameters reach sixty-four bytes with the two before
/// them; up to there, parameters without an end ask for more.
pub proof fn long_sequences_are_given_up(parameters: Seq<u8>, tail: Seq<u8>, erase: Option<u8>)
    requires
        forall|i: int|
            0 <= i < parameters.len() ==> 0x30 <= #[trigger] parameters[i] <= 0x39
                || parameters[i] == 0x3b,
    ensures
        parameters.len() <= 62 ==> decoded_key(seq![0x1bu8, 0x5b] + parameters, erase) is Partial,
        parameters.len() >= 62 && tail.len() > 0 ==> decoded_key(
            seq![0x1bu8, 0x5b] + parameters + tail,
            erase,
        ) is Invalid,
{
    let start = seq![0x1bu8, 0x5b] + parameters;
    assert forall|i: int| 2 <= i < start.len() implies parameter(#[trigger] start[i]) by {
        assert(start[i] == parameters[i - 2]);
    }
    if parameters.len() <= 62 {
        scan_reaches(start, 2, start.len() as int);
    }
    let whole = start + tail;
    if parameters.len() >= 62 {
        assert forall|i: int| 2 <= i < 64 implies parameter(#[trigger] whole[i]) by {
            assert(whole[i] == start[i]);
        }
        scan_reaches(whole, 2, 64);
    }
}

/// What does not start with `ESC [` is no extended key, and its start alone asks for more.
pub proof fn extended_keys_start_with_a_bracket(input: Seq<u8>, erase: Option<u8>)
    ensures
        input.len() == 0 || input[0] != 0x1b ==> decoded_key(input, erase) is Invalid,
        input.len() >= 2 && input[1] != 0x5b ==> decoded_key(input, erase) is Invalid,
        decoded_key(seq![0x1bu8], erase) is Partial,
{
}

} // verus!
