//! Which bytes a key sends under each combination of modifiers.
use crate::bytes::decimal;
use crate::input_keys::{
    backtab, cursor_final, encoded_key, extended_form, legacy_spelled, mode1_form,
    modified_cursor_form, modifier_bits, modifier_parameter, named_format, named_sequence,
    standard_sequence, standard_sequence_with_fallback, trivial_key, unmodified, vt10x_body,
    vt10x_form, with_active_flags, ExtendedKeyFormat,
};
use crate::key_code::{
    KEYC_BTAB, KEYC_CTRL, KEYC_CURSOR, KEYC_IMPLIED_META, KEYC_KEYPAD, KEYC_MASK_KEY,
    KEYC_MASK_MODIFIERS, KEYC_MASK_TYPE, KEYC_META, KEYC_SHIFT, KeyCode,
};
use crate::key_laws::{
    character_has_no_cursor_form, named_keys_keep_their_legacy_form, sequences_are_for_named_keys,
};
use crate::key_table_laws::{named_key_bits, plain_named_key, table_payloads};
use crate::pane_mode::{MODE_KEYS_EXTENDED, MODE_KEYS_EXTENDED_2, MODE_KEYS_KITTY};
use vstd::prelude::*;
use vstd::utf8::*;

verus! {

/// A key pressed together with modifiers.
pub open spec fn pressed(base: KeyCode, shift: bool, meta: bool, ctrl: bool) -> KeyCode {
    base | (if shift {
        KEYC_SHIFT
    } else {
        0
    }) | (if meta {
        KEYC_META
    } else {
        0
    }) | (if ctrl {
        KEYC_CTRL
    } else {
        0
    })
}

/// The bytes of a key under Meta: those of the key behind the escape byte.
pub open spec fn behind_escape(meta: bool, bytes: Seq<u8>) -> Seq<u8> {
    if meta {
        seq![0x1bu8] + bytes
    } else {
        bytes
    }
}

/// The digit that names a combination of modifiers: `1`, moved on by one for Shift, two
/// for Meta and four for Control.
pub open spec fn modifier_digit(shift: bool, meta: bool, ctrl: bool) -> u8 {
    if ctrl {
        if meta {
            if shift { 0x38 } else { 0x37 }
        } else {
            if shift { 0x36 } else { 0x35 }
        }
    } else {
        if meta {
            if shift { 0x34 } else { 0x33 }
        } else {
            if shift { 0x32 } else { 0x31 }
        }
    }
}

/// What the masks make of a pressed character.
proof fn pressed_character_bits(
    pane_mode: u32,
    base: KeyCode,
    shift: bool,
    meta: bool,
    ctrl: bool,
)
    requires
        base <= 0xffff_ffff,
    ensures
        ({
            let key = pressed(base, shift, meta, ctrl);
            &&& ((key & KEYC_SHIFT) != 0) == shift
            &&& ((key & KEYC_META) != 0) == meta
            &&& ((key & KEYC_CTRL) != 0) == ctrl
            &&& (key & KEYC_CURSOR) == 0
            &&& (key & KEYC_KEYPAD) == 0
            &&& (key & KEYC_MASK_KEY) == base
            &&& (key & KEYC_MASK_TYPE) == 0
            &&& ((key & KEYC_MASK_MODIFIERS) == 0) == (!shift && !meta && !ctrl)
            &&& ((key & KEYC_MASK_MODIFIERS) == KEYC_SHIFT) == (shift && !meta && !ctrl)
            &&& ((key & (KEYC_SHIFT | KEYC_CTRL)) == 0) == (!shift && !ctrl)
            &&& ((key & (KEYC_SHIFT | KEYC_CTRL | KEYC_META | KEYC_IMPLIED_META)) == 0) == (!shift
                && !meta && !ctrl)
            &&& ((key & (KEYC_CTRL | KEYC_META | KEYC_SHIFT)) == KEYC_CTRL) == (ctrl && !meta
                && !shift)
            &&& ((key & (KEYC_CTRL | KEYC_META)) == KEYC_META) == (meta && !ctrl)
            &&& with_active_flags(pane_mode, key) == key
            &&& base < 0x80 ==> (key & 0x7f) == base
            &&& ((key & !(KEYC_META | KEYC_IMPLIED_META)) & KEYC_MASK_KEY) == base
            &&& (KEYC_BTAB & KEYC_MASK_KEY) == 0x2_0000_001a
        }),
{
    assert({
        let key = pressed(base, shift, meta, ctrl);
        &&& ((key & KEYC_SHIFT) != 0) == shift
        &&& ((key & KEYC_META) != 0) == meta
        &&& ((key & KEYC_CTRL) != 0) == ctrl
        &&& (key & KEYC_CURSOR) == 0
        &&& (key & KEYC_KEYPAD) == 0
        &&& (key & KEYC_MASK_KEY) == base
        &&& (key & KEYC_MASK_TYPE) == 0
        &&& ((key & KEYC_MASK_MODIFIERS) == 0) == (!shift && !meta && !ctrl)
        &&& ((key & KEYC_MASK_MODIFIERS) == KEYC_SHIFT) == (shift && !meta && !ctrl)
        &&& ((key & (KEYC_SHIFT | KEYC_CTRL)) == 0) == (!shift && !ctrl)
        &&& ((key & (KEYC_SHIFT | KEYC_CTRL | KEYC_META | KEYC_IMPLIED_META)) == 0) == (!shift
            && !meta && !ctrl)
        &&& ((key & (KEYC_CTRL | KEYC_META | KEYC_SHIFT)) == KEYC_CTRL) == (ctrl && !meta
            && !shift)
        &&& ((key & (KEYC_CTRL | KEYC_META)) == KEYC_META) == (meta && !ctrl)
        &&& with_active_flags(pane_mode, key) == key
        &&& base < 0x80 ==> (key & 0x7f) == base
        &&& ((key & !(KEYC_META | KEYC_IMPLIED_META)) & KEYC_MASK_KEY) == base
        &&& (KEYC_BTAB & KEYC_MASK_KEY) == 0x2_0000_001a
    }) by (bit_vector)
        requires
            base <= 0xffff_ffff,
    ;
}

/// A pressed character has no sequence of a named key.
proof fn pressed_character_is_unnamed(
    pane_mode: u32,
    base: KeyCode,
    shift: bool,
    meta: bool,
    ctrl: bool,
)
    requires
        base <= 0xffff_ffff,
    ensures
        standard_sequence(pressed(base, shift, meta, ctrl)) is None,
        standard_sequence_with_fallback(pressed(base, shift, meta, ctrl)) is None,
        modified_cursor_form(pressed(base, shift, meta, ctrl)) is None,
{
    let key = pressed(base, shift, meta, ctrl);
    pressed_character_bits(pane_mode, base, shift, meta, ctrl);
    if standard_sequence(key) is Some {
        sequences_are_for_named_keys(key & !(KEYC_META | KEYC_IMPLIED_META));
    }
    character_has_no_cursor_form(key);
}

/// A character without Control sends its UTF-8 form, behind the escape byte under Meta,
/// wherever no extended level applies to it; Enter with Shift alone sends a line feed.
/// Outside ASCII, Control makes no difference either.
#[verifier::rlimit(40)]
pub proof fn characters_send_their_utf8(
    pane_mode: u32,
    format: ExtendedKeyFormat,
    base: KeyCode,
    shift: bool,
    meta: bool,
    ctrl: bool,
    erase: u8,
)
    requires
        base <= 0x10FFFF,
        is_scalar(base as u32),
        ctrl ==> base > 0x7f,
        (pane_mode & MODE_KEYS_EXTENDED) == 0 && (pane_mode & MODE_KEYS_EXTENDED_2) == 0 || !shift
            && !meta && !ctrl,
    ensures
        encoded_key(pane_mode, format, pressed(base, shift, meta, ctrl), erase) == Some(
            if base == 0x0d && shift && !meta {
                seq![0x0au8]
            } else {
                behind_escape(meta, encode_scalar(base as u32))
            },
        ),
{
    let key = pressed(base, shift, meta, ctrl);
    pressed_character_bits(pane_mode, base, shift, meta, ctrl);
    pressed_character_is_unnamed(pane_mode, base, shift, meta, ctrl);
    assert(seq![] + encode_scalar(base as u32) =~= encode_scalar(base as u32));
    if base < 0x80 {
        let scalar = base as u32;
        assert((scalar & 0x7f) == scalar) by (bit_vector)
            requires
                scalar < 0x80,
        ;
        assert(encode_scalar(scalar) =~= seq![base as u8]);
    }
}

/// Control makes a control byte of a character: the letters and the punctuation around
/// them give their place in the alphabet, and the keys without a place of their own give
/// what they share a key with. Meta puts the escape byte before it, and Shift matters
/// only to the digits that Control alone leaves without an effect.
#[verifier::rlimit(40)]
pub proof fn control_makes_control_bytes(
    pane_mode: u32,
    format: ExtendedKeyFormat,
    base: KeyCode,
    shift: bool,
    meta: bool,
    erase: u8,
)
    requires
        base < 0x80,
        (pane_mode & MODE_KEYS_EXTENDED) == 0,
        (pane_mode & MODE_KEYS_EXTENDED_2) == 0,
    ensures
        ({
            let sent = encoded_key(pane_mode, format, pressed(base, shift, meta, true), erase);
            let idle = !shift && !meta && (base == 0x33 || base == 0x34 || base == 0x35 || base
                == 0x37 || base == 0x38);
            &&& idle ==> sent == Some(Seq::<u8>::empty())
            &&& !idle && 0x33 <= base <= 0x37 ==> sent == Some(
                behind_escape(meta, seq![(base - 0x18) as u8]),
            )
            &&& !idle && base == 0x38 ==> sent is None
            &&& base == 0x0d || base == 0x0a || base == 0x09 ==> sent == Some(
                behind_escape(meta, seq![base as u8]),
            )
            &&& 0x40 <= base <= 0x5f ==> sent == Some(
                behind_escape(meta, seq![(base - 0x40) as u8]),
            )
            &&& 0x60 <= base <= 0x7e ==> sent == Some(
                behind_escape(meta, seq![(base - 0x60) as u8]),
            )
            &&& base == 0x20 || base == 0x32 ==> sent == Some(behind_escape(meta, seq![0x00u8]))
            &&& base == 0x2f ==> sent == Some(behind_escape(meta, seq![0x1fu8]))
            &&& base == 0x3f ==> sent == Some(behind_escape(meta, seq![0x7fu8]))
            &&& base == 0x31 || base == 0x21 ==> sent == Some(behind_escape(meta, seq![0x31u8]))
            &&& base == 0x39 || base == 0x28 ==> sent == Some(behind_escape(meta, seq![0x39u8]))
            &&& base == 0x30 || base == 0x29 ==> sent == Some(behind_escape(meta, seq![0x30u8]))
            &&& base == 0x3d || base == 0x2b ==> sent == Some(behind_escape(meta, seq![0x3du8]))
            &&& base == 0x3b || base == 0x3a ==> sent == Some(behind_escape(meta, seq![0x3bu8]))
            &&& base == 0x27 || base == 0x22 ==> sent == Some(behind_escape(meta, seq![0x27u8]))
            &&& base == 0x2c || base == 0x3c ==> sent == Some(behind_escape(meta, seq![0x2cu8]))
            &&& base == 0x2e || base == 0x3e ==> sent == Some(behind_escape(meta, seq![0x2eu8]))
            &&& base == 0x7f || 0x23 <= base <= 0x26 || base == 0x2a || base == 0x2d ==> sent
                is None
            &&& base < 0x20 && base != 0x0d && base != 0x0a && base != 0x09 ==> sent is None
        }),
{
    pressed_character_bits(pane_mode, base, shift, meta, true);
    pressed_character_is_unnamed(pane_mode, base, shift, meta, true);
    assert(forall|byte: u8| #![auto] seq![] + seq![byte] =~= seq![byte]);
    assert(seq![] + Seq::<u8>::empty() =~= Seq::<u8>::empty());
}

/// At the second extended level a modified character is spelled by its number and the
/// digit of its modifiers: `ESC [ number ; digit u`, or `ESC [ 27 ; digit ; number ~`
/// where the configured format is that of xterm and the pane does not speak kitty.
#[verifier::rlimit(40)]
pub proof fn modified_characters_are_spelled_out(
    pane_mode: u32,
    format: ExtendedKeyFormat,
    base: KeyCode,
    shift: bool,
    meta: bool,
    ctrl: bool,
    erase: u8,
)
    requires
        (pane_mode & MODE_KEYS_EXTENDED_2) != 0,
        base <= 0x10FFFF,
        shift || meta || ctrl,
    ensures
        encoded_key(pane_mode, format, pressed(base, shift, meta, ctrl), erase) == Some(
            if (pane_mode & MODE_KEYS_KITTY) == 0 && format is Xterm {
                seq![0x1bu8, 0x5b, 0x32, 0x37, 0x3b, modifier_digit(shift, meta, ctrl), 0x3b]
                    + decimal(base as nat) + seq![0x7eu8]
            } else {
                seq![0x1bu8, 0x5b] + decimal(base as nat) + seq![
                    0x3bu8,
                    modifier_digit(shift, meta, ctrl),
                    0x75,
                ]
            },
        ),
{
    let key = pressed(base, shift, meta, ctrl);
    pressed_character_bits(pane_mode, base, shift, meta, ctrl);
    pressed_character_is_unnamed(pane_mode, base, shift, meta, ctrl);
    assert(encoded_key(pane_mode, format, key, erase)->0 =~= (if (pane_mode & MODE_KEYS_KITTY)
        == 0 && format is Xterm {
        seq![0x1bu8, 0x5b, 0x32, 0x37, 0x3b, modifier_digit(shift, meta, ctrl), 0x3b] + decimal(
            base as nat,
        ) + seq![0x7eu8]
    } else {
        seq![0x1bu8, 0x5b] + decimal(base as nat) + seq![
            0x3bu8,
            modifier_digit(shift, meta, ctrl),
            0x75,
        ]
    }));
}

/// The first extended level leaves to their legacy form the characters under Meta without
/// Control, and those that Control makes a byte of; all others it spells out as the
/// second level does.
#[verifier::rlimit(40)]
pub proof fn first_level_lies_between(
    pane_mode: u32,
    above: u32,
    format: ExtendedKeyFormat,
    base: KeyCode,
    shift: bool,
    meta: bool,
    ctrl: bool,
    erase: u8,
)
    requires
        (pane_mode & MODE_KEYS_EXTENDED) != 0,
        (pane_mode & MODE_KEYS_EXTENDED_2) == 0,
        (above & MODE_KEYS_EXTENDED_2) != 0,
        (above & MODE_KEYS_KITTY) == (pane_mode & MODE_KEYS_KITTY),
        base <= 0x10FFFF,
        is_scalar(base as u32),
        shift || meta || ctrl,
    ensures
        ({
            let key = pressed(base, shift, meta, ctrl);
            let kept = meta && !ctrl || ctrl && (base == 0x20 || base == 0x2f || 0x32 <= base
                <= 0x38 || 0x40 <= base <= 0x7e);
            let legacy = encoded_key(0, format, key, erase);
            encoded_key(pane_mode, format, key, erase) == (if kept && legacy is Some {
                legacy
            } else {
                encoded_key(above, format, key, erase)
            })
        }),
{
    pressed_character_bits(pane_mode, base, shift, meta, ctrl);
    pressed_character_bits(0, base, shift, meta, ctrl);
    pressed_character_bits(above, base, shift, meta, ctrl);
    pressed_character_is_unnamed(pane_mode, base, shift, meta, ctrl);
    assert((0u32 & MODE_KEYS_EXTENDED) == 0 && (0u32 & MODE_KEYS_EXTENDED_2) == 0) by (bit_vector);
}

/// What the masks make of a pressed named key.
proof fn pressed_named_bits(
    pane_mode: u32,
    payload: KeyCode,
    flag: KeyCode,
    shift: bool,
    meta: bool,
    ctrl: bool,
)
    requires
        0x2_0000_0008 <= payload <= 0x2_0000_002e,
        flag == 0 || flag == KEYC_CURSOR || flag == KEYC_KEYPAD,
    ensures
        payload + flag <= u64::MAX,
        ({
            let base = (payload + flag) as u64;
            let key = pressed(base, shift, meta, ctrl);
            let active = with_active_flags(pane_mode, key);
            &&& ((key & KEYC_SHIFT) != 0) == shift
            &&& ((key & KEYC_META) != 0) == meta
            &&& ((key & KEYC_CTRL) != 0) == ctrl
            &&& (key & KEYC_MASK_KEY) == payload
            &&& (key & KEYC_MASK_TYPE) != 0
            &&& ((key & KEYC_MASK_MODIFIERS) == KEYC_SHIFT) == (shift && !meta && !ctrl)
            &&& ((key & (KEYC_SHIFT | KEYC_CTRL)) == 0) == (!shift && !ctrl)
            &&& ((key & (KEYC_SHIFT | KEYC_CTRL | KEYC_META | KEYC_IMPLIED_META)) == 0) == (!shift
                && !meta && !ctrl)
            &&& unmodified(key) == base
            &&& with_active_flags(pane_mode, base) == (active & !(KEYC_SHIFT | KEYC_META
                | KEYC_CTRL))
            &&& !shift && !ctrl ==> (key & !(KEYC_META | KEYC_IMPLIED_META)) == base
            &&& !shift && !ctrl ==> (active & !(KEYC_META | KEYC_IMPLIED_META))
                == with_active_flags(pane_mode, base)
            &&& (active & KEYC_CTRL) == (key & KEYC_CTRL)
            &&& (active & KEYC_MASK_KEY) == payload
            &&& (KEYC_BTAB & KEYC_MASK_KEY) == 0x2_0000_001a
        }),
{
    assert(payload + flag <= u64::MAX && ({
        let base = (payload + flag) as u64;
        let key = pressed(base, shift, meta, ctrl);
        let active = with_active_flags(pane_mode, key);
        &&& ((key & KEYC_SHIFT) != 0) == shift
        &&& ((key & KEYC_META) != 0) == meta
        &&& ((key & KEYC_CTRL) != 0) == ctrl
        &&& (key & KEYC_MASK_KEY) == payload
        &&& (key & KEYC_MASK_TYPE) != 0
        &&& ((key & KEYC_MASK_MODIFIERS) == KEYC_SHIFT) == (shift && !meta && !ctrl)
        &&& ((key & (KEYC_SHIFT | KEYC_CTRL)) == 0) == (!shift && !ctrl)
        &&& ((key & (KEYC_SHIFT | KEYC_CTRL | KEYC_META | KEYC_IMPLIED_META)) == 0) == (!shift
            && !meta && !ctrl)
        &&& unmodified(key) == base
        &&& with_active_flags(pane_mode, base) == (active & !(KEYC_SHIFT | KEYC_META | KEYC_CTRL))
        &&& !shift && !ctrl ==> (key & !(KEYC_META | KEYC_IMPLIED_META)) == base
        &&& !shift && !ctrl ==> (active & !(KEYC_META | KEYC_IMPLIED_META)) == with_active_flags(
            pane_mode,
            base,
        )
        &&& (active & KEYC_CTRL) == (key & KEYC_CTRL)
        &&& (active & KEYC_MASK_KEY) == payload
        &&& (KEYC_BTAB & KEYC_MASK_KEY) == 0x2_0000_001a
    })) by (bit_vector)
        requires
            0x2_0000_0008 <= payload && payload <= 0x2_0000_002e,
            flag == 0 || flag == KEYC_CURSOR || flag == KEYC_KEYPAD,
    ;
}

/// A modified arrow key, Home or End sends `ESC [ 1 ;`, the digit of its modifiers and its
/// letter, in every pane mode and format.
pub proof fn modified_arrows_send_their_letter(
    pane_mode: u32,
    format: ExtendedKeyFormat,
    base: KeyCode,
    shift: bool,
    meta: bool,
    ctrl: bool,
    erase: u8,
)
    requires
        shift || meta || ctrl,
    ensures
        ({
            let sent = encoded_key(pane_mode, format, pressed(base, shift, meta, ctrl), erase);
            let digit = modifier_digit(shift, meta, ctrl);
            &&& base == 0x0004_0002_0000_001b ==> sent == Some(
                seq![0x1bu8, 0x5b, 0x31, 0x3b, digit, 0x41],
            )
            &&& base == 0x0004_0002_0000_001c ==> sent == Some(
                seq![0x1bu8, 0x5b, 0x31, 0x3b, digit, 0x42],
            )
            &&& base == 0x0004_0002_0000_001d ==> sent == Some(
                seq![0x1bu8, 0x5b, 0x31, 0x3b, digit, 0x44],
            )
            &&& base == 0x0004_0002_0000_001e ==> sent == Some(
                seq![0x1bu8, 0x5b, 0x31, 0x3b, digit, 0x43],
            )
            &&& base == 0x2_0000_0016 ==> sent == Some(
                seq![0x1bu8, 0x5b, 0x31, 0x3b, digit, 0x48],
            )
            &&& base == 0x2_0000_0017 ==> sent == Some(
                seq![0x1bu8, 0x5b, 0x31, 0x3b, digit, 0x46],
            )
        }),
{
    if base == 0x2_0000_0016 {
        modified_key_sends_its_letter(pane_mode, format, base, 0, 0x48, shift, meta, ctrl, erase);
    } else if base == 0x2_0000_0017 {
        modified_key_sends_its_letter(pane_mode, format, base, 0, 0x46, shift, meta, ctrl, erase);
    } else if 0x0004_0002_0000_001b <= base <= 0x0004_0002_0000_001e {
        let payload = (base - KEYC_CURSOR) as u64;
        let letter: u8 = if base == 0x0004_0002_0000_001b {
            0x41
        } else if base == 0x0004_0002_0000_001c {
            0x42
        } else if base == 0x0004_0002_0000_001d {
            0x44
        } else {
            0x43
        };
        modified_key_sends_its_letter(
            pane_mode,
            format,
            payload,
            KEYC_CURSOR,
            letter,
            shift,
            meta,
            ctrl,
            erase,
        );
    }
}

/// A modified key with a letter of its own sends the digit of its modifiers and the letter.
#[verifier::rlimit(40)]
proof fn modified_key_sends_its_letter(
    pane_mode: u32,
    format: ExtendedKeyFormat,
    payload: KeyCode,
    flag: KeyCode,
    letter: u8,
    shift: bool,
    meta: bool,
    ctrl: bool,
    erase: u8,
)
    requires
        0x2_0000_0008 <= payload <= 0x2_0000_002e,
        payload != 0x2_0000_001a,
        flag == 0 || flag == KEYC_CURSOR,
        cursor_final((payload + flag) as u64) == Some(letter),
        shift || meta || ctrl,
    ensures
        encoded_key(
            pane_mode,
            format,
            pressed((payload + flag) as u64, shift, meta, ctrl),
            erase,
        ) == Some(seq![0x1bu8, 0x5b, 0x31, 0x3b, modifier_digit(shift, meta, ctrl), letter]),
{
    let key = pressed((payload + flag) as u64, shift, meta, ctrl);
    let digit = modifier_digit(shift, meta, ctrl);
    pressed_named_bits(pane_mode, payload, flag, shift, meta, ctrl);
    assert(modifier_parameter(key) == Some((digit - 0x30) as u8));
    assert(decimal((digit - 0x30) as nat) =~= seq![digit]);
    assert(modified_cursor_form(key)->0 =~= seq![0x1bu8, 0x5b, 0x31, 0x3b, digit, letter]);
    assert(vt10x_form(pane_mode, key, erase) == modified_cursor_form(key));
    assert(vt10x_form(0, key, erase) == modified_cursor_form(key));
    assert(extended_form(key, format) == modified_cursor_form(key));
    assert(extended_form(key, ExtendedKeyFormat::CsiU) == modified_cursor_form(key));
}

/// Meta puts the escape byte before what a named key sends, except for the keys that spell
/// their modifiers: the arrow keys, Home and End, and Shift-Tab.
#[verifier::rlimit(40)]
pub proof fn meta_puts_the_escape_byte_first(
    pane_mode: u32,
    format: ExtendedKeyFormat,
    payload: KeyCode,
    flag: KeyCode,
    erase: u8,
)
    requires
        0x2_0000_0008 <= payload <= 0x2_0000_002e,
        !(0x2_0000_001a <= payload <= 0x2_0000_001e),
        payload != 0x2_0000_0016,
        payload != 0x2_0000_0017,
        flag == 0 && payload < 0x2_0000_001a || flag == KEYC_KEYPAD && payload > 0x2_0000_001e,
    ensures
        ({
            let plain = encoded_key(pane_mode, format, (payload + flag) as u64, erase);
            &&& plain is Some
            &&& encoded_key(
                pane_mode,
                format,
                pressed((payload + flag) as u64, false, true, false),
                erase,
            ) == Some(seq![0x1bu8] + plain->0)
        }),
{
    let base = (payload + flag) as u64;
    pressed_named_bits(pane_mode, payload, flag, false, false, false);
    pressed_named_bits(pane_mode, payload, flag, false, true, false);
    table_payloads();
    named_key_bits(pane_mode, payload, flag);
    plain_named_key(pane_mode, format, payload, flag, erase);
    named_keys_keep_their_legacy_form(
        pane_mode,
        format,
        pressed(base, false, true, false),
        erase,
    );
    let active = with_active_flags(pane_mode, pressed(base, false, true, false));
    modifier_bits(active);
    assert(standard_sequence(active) == named_sequence(with_active_flags(pane_mode, base)));
    assert(standard_sequence(active) is Some);
    assert(vt10x_form(pane_mode, pressed(base, false, true, false), erase) == Some(
        seq![0x1bu8] + standard_sequence(active)->0,
    ));
}

/// A function or keypad key with Shift or Control is spelled by its number at the second
/// extended level, and at the first one too unless Meta is there without Control. Where
/// that is so, or no extended level applies, Control sends nothing, and Shift sends the low
/// bits of the number.
#[verifier::rlimit(40)]
pub proof fn modified_named_keys_by_level(
    pane_mode: u32,
    format: ExtendedKeyFormat,
    payload: KeyCode,
    flag: KeyCode,
    shift: bool,
    meta: bool,
    ctrl: bool,
    erase: u8,
)
    requires
        0x2_0000_0008 <= payload <= 0x2_0000_002e,
        !(0x2_0000_001a <= payload <= 0x2_0000_001e),
        payload != 0x2_0000_0016,
        payload != 0x2_0000_0017,
        flag == 0 && payload < 0x2_0000_001a || flag == KEYC_KEYPAD && payload > 0x2_0000_001e,
        shift || ctrl,
    ensures
        ({
            let key = pressed((payload + flag) as u64, shift, meta, ctrl);
            let digit = modifier_digit(shift, meta, ctrl);
            let sent = encoded_key(pane_mode, format, key, erase);
            &&& (pane_mode & MODE_KEYS_EXTENDED_2) != 0 || (pane_mode & MODE_KEYS_EXTENDED) != 0
                && !(meta && !ctrl) ==> sent == Some(
                if (pane_mode & MODE_KEYS_KITTY) == 0 && format is Xterm {
                    seq![0x1bu8, 0x5b, 0x32, 0x37, 0x3b, digit, 0x3b] + decimal(payload as nat)
                        + seq![0x7eu8]
                } else {
                    seq![0x1bu8, 0x5b] + decimal(payload as nat) + seq![0x3bu8, digit, 0x75]
                },
            )
            &&& (pane_mode & MODE_KEYS_EXTENDED_2) == 0 && ((pane_mode & MODE_KEYS_EXTENDED) == 0
                || meta && !ctrl) ==> sent == (if ctrl {
                None
            } else {
                Some(behind_escape(meta, seq![(payload - 0x2_0000_0000) as u8]))
            })
        }),
{
    let base = (payload + flag) as u64;
    let key = pressed(base, shift, meta, ctrl);
    let active = with_active_flags(pane_mode, key);
    let digit = modifier_digit(shift, meta, ctrl);
    let sent = encoded_key(pane_mode, format, key, erase);
    pressed_named_bits(pane_mode, payload, flag, shift, meta, ctrl);
    modified_keys_have_no_sequence(pane_mode, base, shift, meta, ctrl);
    modified_keys_have_no_sequence(0, base, shift, meta, ctrl);
    pressed_named_bits(0, payload, flag, shift, meta, ctrl);
    let plain = with_active_flags(0, key);
    assert((plain & 0x7f) == payload - 0x2_0000_0000 && ((key & (KEYC_CTRL | KEYC_META))
        == KEYC_META) == (meta && !ctrl)) by (bit_vector)
        requires
            plain == with_active_flags(0, key),
            key == pressed(base, shift, meta, ctrl),
            base == payload || base == payload + KEYC_KEYPAD,
            0x2_0000_0008 <= payload && payload <= 0x2_0000_002e,
    ;
    modifier_bits(plain);
    if (pane_mode & MODE_KEYS_EXTENDED_2) != 0 || (pane_mode & MODE_KEYS_EXTENDED) != 0 && !(meta
        && !ctrl) {
        assert(sent->0 =~= (if (pane_mode & MODE_KEYS_KITTY) == 0 && format is Xterm {
            seq![0x1bu8, 0x5b, 0x32, 0x37, 0x3b, digit, 0x3b] + decimal(payload as nat)
                + seq![0x7eu8]
        } else {
            seq![0x1bu8, 0x5b] + decimal(payload as nat) + seq![0x3bu8, digit, 0x75]
        }));
    }
    assert((active & 0x7f) == payload - 0x2_0000_0000) by (bit_vector)
        requires
            active == with_active_flags(pane_mode, pressed(base, shift, meta, ctrl)),
            base == payload || base == payload + KEYC_KEYPAD,
            0x2_0000_0008 <= payload && payload <= 0x2_0000_002e,
    ;
    modifier_bits(active);
    assert(forall|byte: u8| #![auto] seq![] + seq![byte] =~= seq![byte]);
}

/// No legacy sequence belongs to a key with Shift or Control.
#[verifier::rlimit(40)]
proof fn modified_keys_have_no_sequence(
    pane_mode: u32,
    base: KeyCode,
    shift: bool,
    meta: bool,
    ctrl: bool,
)
    requires
        shift || ctrl,
    ensures
        ({
            let active = with_active_flags(pane_mode, pressed(base, shift, meta, ctrl));
            standard_sequence_with_fallback(active) is None
        }),
{
    let active = with_active_flags(pane_mode, pressed(base, shift, meta, ctrl));
    let first = active & !(KEYC_META | KEYC_IMPLIED_META);
    let second = (active & !KEYC_CURSOR) & !(KEYC_META | KEYC_IMPLIED_META);
    let third = (active & !KEYC_KEYPAD) & !(KEYC_META | KEYC_IMPLIED_META);
    assert((first & (KEYC_SHIFT | KEYC_CTRL)) != 0 && (second & (KEYC_SHIFT | KEYC_CTRL)) != 0 && (
    third & (KEYC_SHIFT | KEYC_CTRL)) != 0) by (bit_vector)
        requires
            active == with_active_flags(pane_mode, pressed(base, shift, meta, ctrl)),
            first == active & !(KEYC_META | KEYC_IMPLIED_META),
            second == (active & !KEYC_CURSOR) & !(KEYC_META | KEYC_IMPLIED_META),
            third == (active & !KEYC_KEYPAD) & !(KEYC_META | KEYC_IMPLIED_META),
            shift || ctrl,
    ;
    sequences_have_no_modifier(first);
    sequences_have_no_modifier(second);
    sequences_have_no_modifier(third);
}

/// The keys with a legacy sequence carry neither Shift nor Control.
proof fn sequences_have_no_modifier(base: KeyCode)
    requires
        (base & (KEYC_SHIFT | KEYC_CTRL)) != 0,
    ensures
        named_sequence(base) is None,
{
    table_payloads();
    assert(!((base <= 0x2_0000_002e) || (0x2_0002_0000_0000 <= base && base <= 0x2_0002_0000_002e)
        || (0x2_0000_0000_0000 <= base && base <= 0x2_0002_0000_002e) || (0x4_0000_0000_0000
        <= base && base <= 0x4_0002_0000_002e))) by (bit_vector)
        requires
            (base & (KEYC_SHIFT | KEYC_CTRL)) != 0,
    ;
}

/// Shift-Tab sends `ESC [ Z` whatever its modifiers, and at the second extended level it is
/// spelled as Tab with Shift and its other modifiers.
#[verifier::rlimit(40)]
pub proof fn backtab_sends_its_sequence(
    pane_mode: u32,
    format: ExtendedKeyFormat,
    shift: bool,
    meta: bool,
    ctrl: bool,
    erase: u8,
)
    ensures
        encoded_key(pane_mode, format, pressed(0x2_0000_001a, shift, meta, ctrl), erase) == Some(
            if (pane_mode & MODE_KEYS_EXTENDED_2) == 0 {
                seq![0x1bu8, 0x5b, 0x5a]
            } else if (pane_mode & MODE_KEYS_KITTY) == 0 && format is Xterm {
                seq![
                    0x1bu8,
                    0x5b,
                    0x32,
                    0x37,
                    0x3b,
                    modifier_digit(true, meta, ctrl),
                    0x3b,
                    0x39,
                    0x7e,
                ]
            } else {
                seq![0x1bu8, 0x5b, 0x39, 0x3b, modifier_digit(true, meta, ctrl), 0x75]
            },
        ),
{
    let key = pressed(0x2_0000_001a, shift, meta, ctrl);
    pressed_named_bits(pane_mode, 0x2_0000_001a, 0, shift, meta, ctrl);
    pressed_character_bits(pane_mode, 0x09, true, meta, ctrl);
    pressed_character_is_unnamed(pane_mode, 0x09, true, meta, ctrl);
    assert(((key & !KEYC_MASK_KEY) | 0x09 | KEYC_SHIFT) == pressed(0x09, true, meta, ctrl))
        by (bit_vector)
        requires
            key == pressed(0x2_0000_001a, shift, meta, ctrl),
    ;
    if (pane_mode & MODE_KEYS_EXTENDED_2) != 0 {
        assert(decimal(9) =~= seq![0x39u8]);
        let sent = encoded_key(pane_mode, format, key, erase)->0;
        if (pane_mode & MODE_KEYS_KITTY) == 0 && format is Xterm {
            assert(sent =~= seq![
                0x1bu8,
                0x5b,
                0x32,
                0x37,
                0x3b,
                modifier_digit(true, meta, ctrl),
                0x3b,
                0x39,
                0x7e,
            ]);
        } else {
            assert(sent =~= seq![
                0x1bu8,
                0x5b,
                0x39,
                0x3b,
                modifier_digit(true, meta, ctrl),
                0x75,
            ]);
        }
    }
}

/// The mark of a Meta that was part of a sequence makes no difference to what a key sends.
#[verifier::rlimit(40)]
pub proof fn implied_meta_makes_no_difference(
    pane_mode: u32,
    format: ExtendedKeyFormat,
    key: KeyCode,
    erase: u8,
)
    requires
        (key & KEYC_META) != 0,
    ensures
        encoded_key(pane_mode, format, key | KEYC_IMPLIED_META, erase) == encoded_key(
            pane_mode,
            format,
            key,
            erase,
        ),
{
    let marked = key | KEYC_IMPLIED_META;
    let tabbed = (key & !KEYC_MASK_KEY) | 0x09 | KEYC_SHIFT;
    let marked_tab = (marked & !KEYC_MASK_KEY) | 0x09 | KEYC_SHIFT;
    assert({
        &&& marked_is_alike(key, marked)
        &&& marked_is_alike(tabbed, marked_tab)
        &&& marked_is_alike(with_active_flags(pane_mode, key), with_active_flags(pane_mode, marked))
        &&& marked_is_alike(with_active_flags(0, key), with_active_flags(0, marked))
    }) by (bit_vector)
        requires
            (key & KEYC_META) != 0,
            marked == key | KEYC_IMPLIED_META,
            tabbed == (key & !KEYC_MASK_KEY) | 0x09 | KEYC_SHIFT,
            marked_tab == (marked & !KEYC_MASK_KEY) | 0x09 | KEYC_SHIFT,
    ;
    legacy_forms_are_alike(pane_mode, key, marked, erase);
    legacy_forms_are_alike(0, key, marked, erase);
    extended_forms_are_alike(key, marked, ExtendedKeyFormat::Xterm);
    extended_forms_are_alike(key, marked, ExtendedKeyFormat::CsiU);
    extended_forms_are_alike(tabbed, marked_tab, ExtendedKeyFormat::Xterm);
    extended_forms_are_alike(tabbed, marked_tab, ExtendedKeyFormat::CsiU);
    assert(backtab(marked) == backtab(key));
    assert(!trivial_key(key) && !trivial_key(marked));
    assert(legacy_spelled(marked) == legacy_spelled(key));
    assert(mode1_form(marked, erase) == mode1_form(key, erase));
    assert((key & KEYC_MASK_MODIFIERS) != 0) by (bit_vector)
        requires
            (key & KEYC_META) != 0,
    ;
}

/// Keys that look alike have the same extended form.
proof fn extended_forms_are_alike(key: KeyCode, marked: KeyCode, format: ExtendedKeyFormat)
    requires
        marked_is_alike(key, marked),
    ensures
        extended_form(marked, format) == extended_form(key, format),
        modified_cursor_form(marked) == modified_cursor_form(key),
{
}

/// Keys that look alike have the same legacy form.
#[verifier::rlimit(40)]
proof fn legacy_forms_are_alike(pane_mode: u32, key: KeyCode, marked: KeyCode, erase: u8)
    requires
        marked_is_alike(key, marked),
        marked_is_alike(with_active_flags(pane_mode, key), with_active_flags(pane_mode, marked)),
    ensures
        vt10x_form(pane_mode, marked, erase) == vt10x_form(pane_mode, key, erase),
{
    extended_forms_are_alike(key, marked, ExtendedKeyFormat::Xterm);
    let active = with_active_flags(pane_mode, key);
    let other = with_active_flags(pane_mode, marked);
    assert(standard_sequence(other) == standard_sequence(active));
    assert(standard_sequence(other & !KEYC_CURSOR) == standard_sequence(active & !KEYC_CURSOR));
    assert(standard_sequence(other & !KEYC_KEYPAD) == standard_sequence(active & !KEYC_KEYPAD));
    assert(standard_sequence_with_fallback(other) == standard_sequence_with_fallback(active));
    assert(vt10x_body(other, erase) == vt10x_body(active, erase));
}

/// Two keys that differ in the mark alone look alike under every mask.
spec fn marked_is_alike(key: KeyCode, marked: KeyCode) -> bool {
    &&& (marked & KEYC_MASK_KEY) == (key & KEYC_MASK_KEY)
    &&& (marked & KEYC_MASK_TYPE) == (key & KEYC_MASK_TYPE)
    &&& (marked & KEYC_MASK_MODIFIERS) == (key & KEYC_MASK_MODIFIERS)
    &&& (marked & KEYC_SHIFT) == (key & KEYC_SHIFT)
    &&& (marked & KEYC_META) == (key & KEYC_META)
    &&& (marked & KEYC_CTRL) == (key & KEYC_CTRL)
    &&& (marked & KEYC_CURSOR) == (key & KEYC_CURSOR)
    &&& (marked & KEYC_KEYPAD) == (key & KEYC_KEYPAD)
    &&& (marked & 0x7f) == (key & 0x7f)
    &&& (marked & (KEYC_SHIFT | KEYC_CTRL)) == (key & (KEYC_SHIFT | KEYC_CTRL))
    &&& (marked & (KEYC_CTRL | KEYC_META)) == (key & (KEYC_CTRL | KEYC_META))
    &&& (marked & (KEYC_CTRL | KEYC_META | KEYC_SHIFT)) == (key & (KEYC_CTRL | KEYC_META
        | KEYC_SHIFT))
    &&& (marked & (KEYC_SHIFT | KEYC_CTRL | KEYC_META | KEYC_IMPLIED_META)) != 0
    &&& (key & (KEYC_SHIFT | KEYC_CTRL | KEYC_META | KEYC_IMPLIED_META)) != 0
    &&& unmodified(marked) == unmodified(key)
    &&& (marked & !(KEYC_META | KEYC_IMPLIED_META)) == (key & !(KEYC_META | KEYC_IMPLIED_META))
    &&& ((marked & !KEYC_CURSOR) & !(KEYC_META | KEYC_IMPLIED_META)) == ((key & !KEYC_CURSOR) & !(
    KEYC_META | KEYC_IMPLIED_META))
    &&& ((marked & !KEYC_KEYPAD) & !(KEYC_META | KEYC_IMPLIED_META)) == ((key & !KEYC_KEYPAD) & !(
    KEYC_META | KEYC_IMPLIED_META))
}

/// A number outside ASCII that is no character sends nothing, unless it is spelled out.
pub proof fn no_character_sends_nothing(
    pane_mode: u32,
    format: ExtendedKeyFormat,
    base: KeyCode,
    meta: bool,
    erase: u8,
)
    requires
        0x7f < base <= 0xffff_ffff,
        !is_scalar(base as u32),
        (pane_mode & MODE_KEYS_EXTENDED) == 0 && (pane_mode & MODE_KEYS_EXTENDED_2) == 0 || !meta,
    ensures
        encoded_key(pane_mode, format, pressed(base, false, meta, false), erase) is None,
{
    pressed_character_bits(pane_mode, base, false, meta, false);
    pressed_character_is_unnamed(pane_mode, base, false, meta, false);
}

/// Keys are spelled as the option says where it says `csi-u`, and as xterm does otherwise.
pub proof fn formats_by_name(value: Seq<char>)
    ensures
        named_format(None) is Xterm,
        named_format(Some("csi-u"@)) is CsiU,
        value != "csi-u"@ ==> named_format(Some(value)) is Xterm,
{
}

} // verus!
