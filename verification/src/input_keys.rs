//! Key encoding: the bytes that a pane receives for a key.
use crate::bytes::{decimal, push_bytes, push_decimal, ESC};
use crate::key_code::{
    KEYC_BSPACE, KEYC_BTAB, KEYC_CTRL, KEYC_CURSOR, KEYC_DC, KEYC_DOWN, KEYC_END, KEYC_F1,
    KEYC_F10, KEYC_F11, KEYC_F12, KEYC_F2, KEYC_F3, KEYC_F4, KEYC_F5, KEYC_F6, KEYC_F7, KEYC_F8,
    KEYC_F9, KEYC_HOME, KEYC_IC, KEYC_IMPLIED_META, KEYC_KEYPAD, KEYC_KP_EIGHT, KEYC_KP_ENTER,
    KEYC_KP_FIVE, KEYC_KP_FOUR, KEYC_KP_MINUS, KEYC_KP_NINE, KEYC_KP_ONE, KEYC_KP_PERIOD,
    KEYC_KP_PLUS, KEYC_KP_SEVEN, KEYC_KP_SIX, KEYC_KP_SLASH, KEYC_KP_STAR, KEYC_KP_THREE,
    KEYC_KP_TWO, KEYC_KP_ZERO, KEYC_LEFT, KEYC_MASK_KEY, KEYC_MASK_MODIFIERS, KEYC_MASK_TYPE,
    KEYC_META, KEYC_NPAGE, KEYC_PPAGE, KEYC_RIGHT, KEYC_SHIFT, KEYC_UP, KeyCode,
};
use crate::pane_mode::{
    MODE_KCURSOR, MODE_KEYS_EXTENDED, MODE_KEYS_EXTENDED_2, MODE_KEYS_KITTY, MODE_KKEYPAD,
};
use crate::text::same_text;
use vstd::prelude::*;
use vstd::utf8::*;

verus! {

/// How keys without a legacy form are spelled.
#[derive(Debug, Clone, Copy, PartialEq, Eq, Structural)]
pub enum ExtendedKeyFormat {
    /// `ESC [ 27 ; modifiers ; key ~`
    Xterm,
    /// `ESC [ key ; modifiers u`
    CsiU,
}

/// The format that an option value names.
pub open spec fn named_format(value: Option<Seq<char>>) -> ExtendedKeyFormat {
    if value == Some("csi-u"@) {
        ExtendedKeyFormat::CsiU
    } else {
        ExtendedKeyFormat::Xterm
    }
}

impl ExtendedKeyFormat {
    /// Reads the format from an option value; anything but `csi-u` means `xterm`.
    pub fn parse(value: Option<&str>) -> (format: Self)
        ensures
            format == (if value is Some && value->0@ == "csi-u"@ {
                ExtendedKeyFormat::CsiU
            } else {
                ExtendedKeyFormat::Xterm
            }),
            value is Some ==> format == named_format(Some(value->0@)),
            value is None ==> format == named_format(None),
    {
        match value {
            Some(value) => if same_text(value, "csi-u") {
                ExtendedKeyFormat::CsiU
            } else {
                ExtendedKeyFormat::Xterm
            },
            None => ExtendedKeyFormat::Xterm,
        }
    }
}

/// The first spelling if there is one, else the second.
pub open spec fn either(first: Option<Seq<u8>>, second: Option<Seq<u8>>) -> Option<Seq<u8>> {
    if first is Some {
        first
    } else {
        second
    }
}

/// What an optional byte string holds.
pub open spec fn contents(bytes: Option<Vec<u8>>) -> Option<Seq<u8>> {
    match bytes {
        Some(bytes) => Some(bytes@),
        None => None,
    }
}

/// The key is a character outside ASCII.
pub open spec fn unicode_key(key: KeyCode) -> bool {
    (key & KEYC_MASK_TYPE) == 0 && (key & KEYC_MASK_KEY) > 0x7f
}

/// The key is Shift-Tab, which has a name of its own.
pub open spec fn backtab(key: KeyCode) -> bool {
    (key & KEYC_MASK_KEY) == (KEYC_BTAB & KEYC_MASK_KEY)
}

/// The key is Tab, under any modifiers.
pub open spec fn tab(key: KeyCode) -> bool {
    (key & KEYC_MASK_KEY) == 0x09
}

/// The key is Enter with Shift and no other modifier.
pub open spec fn shift_only_enter(key: KeyCode) -> bool {
    (key & KEYC_MASK_KEY) == 0x0d && (key & KEYC_MASK_MODIFIERS) == KEYC_SHIFT
}

/// The key is sent as its own character in every pane mode.
pub open spec fn trivial_key(key: KeyCode) -> bool {
    let only = key & KEYC_MASK_KEY;
    &&& (key & (KEYC_SHIFT | KEYC_CTRL | KEYC_META | KEYC_IMPLIED_META)) == 0
    &&& {
        ||| only == 0x0d
        ||| only == 0x09
        ||| only == 0x1b
        ||| 0x20 <= only <= 0x7f
        ||| only == KEYC_BSPACE
        ||| unicode_key(key)
    }
}

/// Shift is the only modifier, on a printable character that already reflects it.
pub open spec fn redundant_shift(key: KeyCode) -> bool {
    let only = key & KEYC_MASK_KEY;
    (0x21 <= only < 0x7f || unicode_key(key)) && (key & KEYC_MASK_MODIFIERS) == KEYC_SHIFT
}

/// Control with one of the digits that have no control byte.
pub open spec fn noop_control_key(key: KeyCode, only: KeyCode) -> bool {
    &&& (key & (KEYC_CTRL | KEYC_META | KEYC_SHIFT)) == KEYC_CTRL
    &&& (only == '3' as u64 || only == '4' as u64 || only == '5' as u64 || only == '7' as u64
        || only == '8' as u64)
}

/// The UTF-8 form of the key's character, if the key is one.
pub open spec fn character_form(key: KeyCode) -> Option<Seq<u8>> {
    let only = key & KEYC_MASK_KEY;
    if only <= u32::MAX && is_scalar(only as u32) {
        Some(encode_scalar(only as u32))
    } else {
        None
    }
}

/// The modifiers as a parameter: one, plus one for Shift, two for Meta and four
/// for Control; none when there is no modifier.
pub open spec fn modifier_parameter(key: KeyCode) -> Option<u8> {
    let shift: int = if (key & KEYC_SHIFT) != 0 { 1 } else { 0 };
    let meta: int = if (key & KEYC_META) != 0 { 2 } else { 0 };
    let ctrl: int = if (key & KEYC_CTRL) != 0 { 4 } else { 0 };
    if shift + meta + ctrl == 0 {
        None
    } else {
        Some((1 + shift + meta + ctrl) as u8)
    }
}

/// The final byte of an arrow key, Home or End.
pub open spec fn cursor_final(base: KeyCode) -> Option<u8> {
    if base == KEYC_UP {
        Some('A' as u8)
    } else if base == KEYC_DOWN {
        Some('B' as u8)
    } else if base == KEYC_RIGHT {
        Some('C' as u8)
    } else if base == KEYC_LEFT {
        Some('D' as u8)
    } else if base == KEYC_END {
        Some('F' as u8)
    } else if base == KEYC_HOME {
        Some('H' as u8)
    } else {
        None
    }
}

/// The key without modifiers and without the implied-Meta flag.
pub open spec fn unmodified(key: KeyCode) -> KeyCode {
    key & !(KEYC_SHIFT | KEYC_META | KEYC_CTRL | KEYC_IMPLIED_META)
}

/// The spelling of a modified arrow key, Home or End: `ESC [ 1 ; modifiers final`.
pub open spec fn modified_cursor_form(key: KeyCode) -> Option<Seq<u8>> {
    match (modifier_parameter(key), cursor_final(unmodified(key))) {
        (Some(modifier), Some(last)) => Some(
            seq![ESC, '[' as u8, '1' as u8, ';' as u8] + decimal(modifier as nat) + seq![last],
        ),
        _ => None,
    }
}

/// The extended spelling of a modified key.
pub open spec fn extended_form(key: KeyCode, format: ExtendedKeyFormat) -> Option<Seq<u8>> {
    if modified_cursor_form(key) is Some {
        modified_cursor_form(key)
    } else {
        match modifier_parameter(key) {
            Some(modifier) => Some(
                match format {
                    ExtendedKeyFormat::Xterm => seq![ESC, '[' as u8, '2' as u8, '7' as u8, ';' as u8]
                        + decimal(modifier as nat) + seq![';' as u8] + decimal(
                        (key & KEYC_MASK_KEY) as nat,
                    ) + seq!['~' as u8],
                    ExtendedKeyFormat::CsiU => seq![ESC, '[' as u8] + decimal(
                        (key & KEYC_MASK_KEY) as nat,
                    ) + seq![';' as u8] + decimal(modifier as nat) + seq!['u' as u8],
                },
            ),
            None => None,
        }
    }
}

/// The legacy sequence of a named key, `base` being the key with its flags and
/// without Meta.
pub open spec fn named_sequence(base: KeyCode) -> Option<Seq<u8>> {
    if base == KEYC_F1 {
        Some(seq![ESC, 'O' as u8, 'P' as u8])
    } else if base == KEYC_F2 {
        Some(seq![ESC, 'O' as u8, 'Q' as u8])
    } else if base == KEYC_F3 {
        Some(seq![ESC, 'O' as u8, 'R' as u8])
    } else if base == KEYC_F4 {
        Some(seq![ESC, 'O' as u8, 'S' as u8])
    } else if base == KEYC_F5 {
        Some(seq![ESC, '[' as u8, '1' as u8, '5' as u8, '~' as u8])
    } else if base == KEYC_F6 {
        Some(seq![ESC, '[' as u8, '1' as u8, '7' as u8, '~' as u8])
    } else if base == KEYC_F7 {
        Some(seq![ESC, '[' as u8, '1' as u8, '8' as u8, '~' as u8])
    } else if base == KEYC_F8 {
        Some(seq![ESC, '[' as u8, '1' as u8, '9' as u8, '~' as u8])
    } else if base == KEYC_F9 {
        Some(seq![ESC, '[' as u8, '2' as u8, '0' as u8, '~' as u8])
    } else if base == KEYC_F10 {
        Some(seq![ESC, '[' as u8, '2' as u8, '1' as u8, '~' as u8])
    } else if base == KEYC_F11 {
        Some(seq![ESC, '[' as u8, '2' as u8, '3' as u8, '~' as u8])
    } else if base == KEYC_F12 {
        Some(seq![ESC, '[' as u8, '2' as u8, '4' as u8, '~' as u8])
    } else if base == KEYC_IC {
        Some(seq![ESC, '[' as u8, '2' as u8, '~' as u8])
    } else if base == KEYC_DC {
        Some(seq![ESC, '[' as u8, '3' as u8, '~' as u8])
    } else if base == KEYC_HOME {
        Some(seq![ESC, '[' as u8, '1' as u8, '~' as u8])
    } else if base == KEYC_END {
        Some(seq![ESC, '[' as u8, '4' as u8, '~' as u8])
    } else if base == KEYC_PPAGE {
        Some(seq![ESC, '[' as u8, '5' as u8, '~' as u8])
    } else if base == KEYC_NPAGE {
        Some(seq![ESC, '[' as u8, '6' as u8, '~' as u8])
    } else if base == KEYC_BTAB {
        Some(seq![ESC, '[' as u8, 'Z' as u8])
    } else if base == KEYC_UP {
        Some(seq![ESC, 'O' as u8, 'A' as u8])
    } else if base == (KEYC_UP & !KEYC_CURSOR) {
        Some(seq![ESC, '[' as u8, 'A' as u8])
    } else if base == KEYC_DOWN {
        Some(seq![ESC, 'O' as u8, 'B' as u8])
    } else if base == (KEYC_DOWN & !KEYC_CURSOR) {
        Some(seq![ESC, '[' as u8, 'B' as u8])
    } else if base == KEYC_RIGHT {
        Some(seq![ESC, 'O' as u8, 'C' as u8])
    } else if base == (KEYC_RIGHT & !KEYC_CURSOR) {
        Some(seq![ESC, '[' as u8, 'C' as u8])
    } else if base == KEYC_LEFT {
        Some(seq![ESC, 'O' as u8, 'D' as u8])
    } else if base == (KEYC_LEFT & !KEYC_CURSOR) {
        Some(seq![ESC, '[' as u8, 'D' as u8])
    } else if base == KEYC_KP_SLASH {
        Some(seq![ESC, 'O' as u8, 'o' as u8])
    } else if base == (KEYC_KP_SLASH & !KEYC_KEYPAD) {
        Some(seq!['/' as u8])
    } else if base == KEYC_KP_STAR {
        Some(seq![ESC, 'O' as u8, 'j' as u8])
    } else if base == (KEYC_KP_STAR & !KEYC_KEYPAD) {
        Some(seq!['*' as u8])
    } else if base == KEYC_KP_MINUS {
        Some(seq![ESC, 'O' as u8, 'm' as u8])
    } else if base == (KEYC_KP_MINUS & !KEYC_KEYPAD) {
        Some(seq!['-' as u8])
    } else if base == KEYC_KP_SEVEN {
        Some(seq![ESC, 'O' as u8, 'w' as u8])
    } else if base == (KEYC_KP_SEVEN & !KEYC_KEYPAD) {
        Some(seq!['7' as u8])
    } else if base == KEYC_KP_EIGHT {
        Some(seq![ESC, 'O' as u8, 'x' as u8])
    } else if base == (KEYC_KP_EIGHT & !KEYC_KEYPAD) {
        Some(seq!['8' as u8])
    } else if base == KEYC_KP_NINE {
        Some(seq![ESC, 'O' as u8, 'y' as u8])
    } else if base == (KEYC_KP_NINE & !KEYC_KEYPAD) {
        Some(seq!['9' as u8])
    } else if base == KEYC_KP_PLUS {
        Some(seq![ESC, 'O' as u8, 'k' as u8])
    } else if base == (KEYC_KP_PLUS & !KEYC_KEYPAD) {
        Some(seq!['+' as u8])
    } else if base == KEYC_KP_FOUR {
        Some(seq![ESC, 'O' as u8, 't' as u8])
    } else if base == (KEYC_KP_FOUR & !KEYC_KEYPAD) {
        Some(seq!['4' as u8])
    } else if base == KEYC_KP_FIVE {
        Some(seq![ESC, 'O' as u8, 'u' as u8])
    } else if base == (KEYC_KP_FIVE & !KEYC_KEYPAD) {
        Some(seq!['5' as u8])
    } else if base == KEYC_KP_SIX {
        Some(seq![ESC, 'O' as u8, 'v' as u8])
    } else if base == (KEYC_KP_SIX & !KEYC_KEYPAD) {
        Some(seq!['6' as u8])
    } else if base == KEYC_KP_ONE {
        Some(seq![ESC, 'O' as u8, 'q' as u8])
    } else if base == (KEYC_KP_ONE & !KEYC_KEYPAD) {
        Some(seq!['1' as u8])
    } else if base == KEYC_KP_TWO {
        Some(seq![ESC, 'O' as u8, 'r' as u8])
    } else if base == (KEYC_KP_TWO & !KEYC_KEYPAD) {
        Some(seq!['2' as u8])
    } else if base == KEYC_KP_THREE {
        Some(seq![ESC, 'O' as u8, 's' as u8])
    } else if base == (KEYC_KP_THREE & !KEYC_KEYPAD) {
        Some(seq!['3' as u8])
    } else if base == KEYC_KP_ENTER {
        Some(seq![ESC, 'O' as u8, 'M' as u8])
    } else if base == (KEYC_KP_ENTER & !KEYC_KEYPAD) {
        Some(seq!['\r' as u8])
    } else if base == KEYC_KP_ZERO {
        Some(seq![ESC, 'O' as u8, 'p' as u8])
    } else if base == (KEYC_KP_ZERO & !KEYC_KEYPAD) {
        Some(seq!['0' as u8])
    } else if base == KEYC_KP_PERIOD {
        Some(seq![ESC, 'O' as u8, 'n' as u8])
    } else if base == (KEYC_KP_PERIOD & !KEYC_KEYPAD) {
        Some(seq!['.' as u8])
    } else {
        None
    }
}

/// The legacy sequence of a named key under any Meta modifier.
pub open spec fn standard_sequence(key: KeyCode) -> Option<Seq<u8>> {
    named_sequence(key & !(KEYC_META | KEYC_IMPLIED_META))
}

/// The legacy sequence of a named key, falling back to the form it has outside
/// application cursor mode, then outside application keypad mode.
pub open spec fn standard_sequence_with_fallback(key: KeyCode) -> Option<Seq<u8>> {
    if standard_sequence(key) is Some {
        standard_sequence(key)
    } else if (key & KEYC_CURSOR) != 0 && standard_sequence(key & !KEYC_CURSOR) is Some {
        standard_sequence(key & !KEYC_CURSOR)
    } else if (key & KEYC_KEYPAD) != 0 {
        standard_sequence(key & !KEYC_KEYPAD)
    } else {
        None
    }
}

/// The legacy form is the one to send, whatever extended mode is active: the key
/// is Backspace, or a named key under no modifier but Meta.
pub open spec fn legacy_spelled(key: KeyCode) -> bool {
    ||| (key & KEYC_MASK_KEY) == KEYC_BSPACE
    ||| (key & (KEYC_SHIFT | KEYC_CTRL)) == 0 && standard_sequence(key) is Some
}

/// The byte that Control makes of a character.
pub open spec fn control_byte(only: KeyCode) -> Option<u8> {
    if only == '1' as u64 || only == '!' as u64 {
        Some('1' as u8)
    } else if only == '9' as u64 || only == '(' as u64 {
        Some('9' as u8)
    } else if only == '0' as u64 || only == ')' as u64 {
        Some('0' as u8)
    } else if only == '=' as u64 || only == '+' as u64 {
        Some('=' as u8)
    } else if only == ';' as u64 || only == ':' as u64 {
        Some(';' as u8)
    } else if only == '\'' as u64 || only == '"' as u64 {
        Some('\'' as u8)
    } else if only == ',' as u64 || only == '<' as u64 {
        Some(',' as u8)
    } else if only == '.' as u64 || only == '>' as u64 {
        Some('.' as u8)
    } else if only == '?' as u64 {
        Some(0x7f)
    } else if only == '/' as u64 {
        Some(0x1f)
    } else if only == '2' as u64 {
        Some(0)
    } else if '3' as u64 <= only <= '7' as u64 {
        Some((only - 0x18) as u8)
    } else if '@' as u64 <= only <= '~' as u64 {
        Some((only % 0x20) as u8)
    } else {
        None
    }
}

/// The key without the keypad and cursor flags that the pane has not asked for.
pub open spec fn with_active_flags(pane_mode: u32, key: KeyCode) -> KeyCode {
    let key = if (pane_mode & MODE_KKEYPAD) == 0 {
        key & !KEYC_KEYPAD
    } else {
        key
    };
    if (pane_mode & MODE_KCURSOR) == 0 {
        key & !KEYC_CURSOR
    } else {
        key
    }
}

/// The legacy form of a key that is neither a character outside ASCII nor a
/// modified arrow key, without its Meta prefix.
pub open spec fn vt10x_body(key: KeyCode, backspace: u8) -> Option<Seq<u8>> {
    let only = key & KEYC_MASK_KEY;
    if noop_control_key(key, only) {
        Some(seq![])
    } else if standard_sequence_with_fallback(key) is Some {
        standard_sequence_with_fallback(key)
    } else if only == KEYC_BSPACE {
        Some(seq![backspace])
    } else if (key & KEYC_CTRL) != 0 && only == ' ' as u64 {
        Some(seq![0])
    } else if (key & KEYC_CTRL) != 0 && only != 0x0d && only != 0x0a && only != 0x09 {
        match control_byte(only) {
            Some(byte) => Some(seq![byte]),
            None => None,
        }
    } else {
        Some(seq![(key & 0x7f) as u8])
    }
}

/// The legacy spelling of a key.
pub open spec fn vt10x_form(pane_mode: u32, key: KeyCode, backspace: u8) -> Option<Seq<u8>> {
    if modified_cursor_form(key) is Some {
        modified_cursor_form(key)
    } else if shift_only_enter(key) {
        Some(seq![0x0a])
    } else {
        let prefix = if (key & KEYC_META) != 0 {
            seq![ESC]
        } else {
            seq![]
        };
        let body = if unicode_key(key) {
            character_form(key)
        } else {
            vt10x_body(with_active_flags(pane_mode, key), backspace)
        };
        match body {
            Some(body) => Some(prefix + body),
            None => None,
        }
    }
}

/// The keys that the first extended level still sends in their legacy form.
pub open spec fn mode1_keeps_legacy(key: KeyCode) -> bool {
    let only = key & KEYC_MASK_KEY;
    ||| (key & (KEYC_CTRL | KEYC_META)) == KEYC_META
    ||| (key & KEYC_CTRL) != 0 && (only == ' ' as u64 || only == '/' as u64 || '2' as u64 <= only
        <= '8' as u64 || '@' as u64 <= only <= '~' as u64)
}

/// The form that the first extended level gives to the keys it keeps.
pub open spec fn mode1_form(key: KeyCode, backspace: u8) -> Option<Seq<u8>> {
    if mode1_keeps_legacy(key) {
        vt10x_form(0, key, backspace)
    } else {
        None
    }
}

/// The bytes that a pane in `pane_mode` receives for `key`.
pub open spec fn encoded_key(
    pane_mode: u32,
    format: ExtendedKeyFormat,
    key: KeyCode,
    backspace: u8,
) -> Option<Seq<u8>> {
    let format = if (pane_mode & MODE_KEYS_KITTY) != 0 {
        ExtendedKeyFormat::CsiU
    } else {
        format
    };
    if backtab(key) {
        if (pane_mode & MODE_KEYS_EXTENDED_2) != 0 {
            extended_form((key & !KEYC_MASK_KEY) | 0x09 | KEYC_SHIFT, format)
        } else {
            Some(seq![ESC, '[' as u8, 'Z' as u8])
        }
    } else if (key & KEYC_MASK_MODIFIERS) == 0 && (key & KEYC_MASK_KEY) == KEYC_BSPACE {
        Some(seq![backspace])
    } else if trivial_key(key) {
        character_form(key)
    } else if legacy_spelled(key) {
        vt10x_form(pane_mode, key, backspace)
    } else if (pane_mode & MODE_KEYS_EXTENDED_2) != 0 {
        either(extended_form(key, format), vt10x_form(pane_mode, key, backspace))
    } else if (pane_mode & MODE_KEYS_EXTENDED) != 0 {
        either(
            mode1_form(key, backspace),
            either(extended_form(key, format), vt10x_form(pane_mode, key, backspace)),
        )
    } else {
        vt10x_form(pane_mode, key, backspace)
    }
}

/// The erase byte of a pane whose Backspace is not configured.
pub const DEFAULT_BACKSPACE: u8 = 0x7f;

/// Encodes a key for a pane with the default erase byte.
pub fn encode_key(pane_mode: u32, format: ExtendedKeyFormat, key: KeyCode) -> (bytes: Option<
    Vec<u8>,
>)
    ensures
        contents(bytes) == encoded_key(pane_mode, format, key, DEFAULT_BACKSPACE),
{
    encode_key_with_backspace(pane_mode, format, key, DEFAULT_BACKSPACE)
}

/// Encodes a key for a pane whose erase byte is `backspace`.
///
/// The legacy form is preferred for the keys that the extended encodings cannot
/// spell, so that Meta with Backspace stays the escape byte and the erase byte in
/// every pane mode.
pub fn encode_key_with_backspace(
    pane_mode: u32,
    format: ExtendedKeyFormat,
    key: KeyCode,
    backspace: u8,
) -> (bytes: Option<Vec<u8>>)
    ensures
        contents(bytes) == encoded_key(pane_mode, format, key, backspace),
{
    let format = if (pane_mode & MODE_KEYS_KITTY) != 0 {
        ExtendedKeyFormat::CsiU
    } else {
        format
    };
    if is_backtab(key) {
        if (pane_mode & MODE_KEYS_EXTENDED_2) != 0 {
            return input_key_extended((key & !KEYC_MASK_KEY) | 0x09 | KEYC_SHIFT, format);
        }
        return Some(vec![ESC, '[' as u8, 'Z' as u8]);
    }
    if (key & KEYC_MASK_MODIFIERS) == 0 && (key & KEYC_MASK_KEY) == KEYC_BSPACE {
        return Some(vec![backspace]);
    }
    if is_trivial_key(key) {
        return key_code_to_bytes(key);
    }
    if legacy_vt10x_spells_key(key) {
        return input_key_vt10x(pane_mode, key, backspace);
    }
    if (pane_mode & MODE_KEYS_EXTENDED_2) != 0 {
        match input_key_extended(key, format) {
            Some(bytes) => Some(bytes),
            None => input_key_vt10x(pane_mode, key, backspace),
        }
    } else if (pane_mode & MODE_KEYS_EXTENDED) != 0 {
        match input_key_mode1(key, backspace) {
            Some(bytes) => Some(bytes),
            None => match input_key_extended(key, format) {
                Some(bytes) => Some(bytes),
                None => input_key_vt10x(pane_mode, key, backspace),
            },
        }
    } else {
        input_key_vt10x(pane_mode, key, backspace)
    }
}

/// Appends the UTF-8 form of a Unicode scalar value.
fn push_scalar(out: &mut Vec<u8>, scalar: u32)
    requires
        is_scalar(scalar),
    ensures
        final(out)@ == old(out)@ + encode_scalar(scalar),
{
    if scalar <= 0x7f {
        out.push((scalar & 0x7F) as u8);
    } else if scalar <= 0x7ff {
        out.push(0xC0 | ((scalar >> 6) & 0x1F) as u8);
        out.push(0x80 | (scalar & 0x3F) as u8);
    } else if scalar <= 0xffff {
        out.push(0xE0 | ((scalar >> 12) & 0x0F) as u8);
        out.push(0x80 | ((scalar >> 6) & 0x3F) as u8);
        out.push(0x80 | (scalar & 0x3F) as u8);
    } else {
        out.push(0xF0 | ((scalar >> 18) & 0x07) as u8);
        out.push(0x80 | ((scalar >> 12) & 0x3F) as u8);
        out.push(0x80 | ((scalar >> 6) & 0x3F) as u8);
        out.push(0x80 | (scalar & 0x3F) as u8);
    }
}

/// Whether `code` is a Unicode scalar value.
pub fn is_unicode_scalar(code: u32) -> (scalar: bool)
    ensures
        scalar == is_scalar(code),
{
    code <= 0xD7FF || (0xE000 <= code && code <= 0x10FFFF)
}

/// The character that a key stands for, as UTF-8.
pub fn key_code_to_bytes(key: KeyCode) -> (bytes: Option<Vec<u8>>)
    ensures
        contents(bytes) == character_form(key),
{
    let only: KeyCode = key & KEYC_MASK_KEY;
    if only > u32::MAX as u64 || !is_unicode_scalar(only as u32) {
        return None;
    }
    let mut bytes: Vec<u8> = Vec::new();
    push_scalar(&mut bytes, only as u32);
    Some(bytes)
}

/// Whether the legacy form of `key` must be preferred over the extended ones.
///
/// The extended forms spell the low bits of the key as a code point, which says
/// nothing for a named key. Backspace has a legacy form under every modifier, as
/// it carries the configured erase byte. Other named keys have one only where
/// nothing but Meta modifies them: with Control they would be lost, and with
/// Shift they would turn into an unrelated control byte.
pub fn legacy_vt10x_spells_key(key: KeyCode) -> (spells: bool)
    ensures
        spells == legacy_spelled(key),
{
    if (key & KEYC_MASK_KEY) == KEYC_BSPACE {
        return true;
    }
    if (key & (KEYC_SHIFT | KEYC_CTRL)) != 0 {
        return false;
    }
    standard_vt10x_sequence(key).is_some()
}

/// Spells a modified key in its extended form.
pub fn input_key_extended(key: KeyCode, format: ExtendedKeyFormat) -> (bytes: Option<Vec<u8>>)
    ensures
        contents(bytes) == extended_form(key, format),
{
    match input_key_modified_cursor(key) {
        Some(sequence) => {
            return Some(sequence);
        },
        None => {},
    }
    match xterm_modifier_parameter(key) {
        None => None,
        Some(modifier) => {
            let only: KeyCode = key & KEYC_MASK_KEY;
            let mut bytes: Vec<u8> = Vec::new();
            match format {
                ExtendedKeyFormat::Xterm => {
                    push_bytes(&mut bytes, &[ESC, '[' as u8, '2' as u8, '7' as u8, ';' as u8]);
                    push_decimal(&mut bytes, modifier as u64);
                    push_bytes(&mut bytes, &[';' as u8]);
                    push_decimal(&mut bytes, only);
                    push_bytes(&mut bytes, &['~' as u8]);
                },
                ExtendedKeyFormat::CsiU => {
                    push_bytes(&mut bytes, &[ESC, '[' as u8]);
                    push_decimal(&mut bytes, only);
                    push_bytes(&mut bytes, &[';' as u8]);
                    push_decimal(&mut bytes, modifier as u64);
                    push_bytes(&mut bytes, &['u' as u8]);
                },
            }
            Some(bytes)
        },
    }
}

/// Spells a modified arrow key, Home or End.
pub fn input_key_modified_cursor(key: KeyCode) -> (bytes: Option<Vec<u8>>)
    ensures
        contents(bytes) == modified_cursor_form(key),
{
    match xterm_modifier_parameter(key) {
        None => None,
        Some(modifier) => {
            let base: KeyCode = key & !(KEYC_SHIFT | KEYC_META | KEYC_CTRL | KEYC_IMPLIED_META);
            let last: u8 = if base == KEYC_UP {
                'A' as u8
            } else if base == KEYC_DOWN {
                'B' as u8
            } else if base == KEYC_RIGHT {
                'C' as u8
            } else if base == KEYC_LEFT {
                'D' as u8
            } else if base == KEYC_END {
                'F' as u8
            } else if base == KEYC_HOME {
                'H' as u8
            } else {
                return None;
            };
            let mut bytes: Vec<u8> = Vec::new();
            push_bytes(&mut bytes, &[ESC, '[' as u8, '1' as u8, ';' as u8]);
            push_decimal(&mut bytes, modifier as u64);
            push_bytes(&mut bytes, &[last]);
            Some(bytes)
        },
    }
}

/// The modifier parameter of a key, if it is modified.
pub fn xterm_modifier_parameter(key: KeyCode) -> (parameter: Option<u8>)
    ensures
        parameter == modifier_parameter(key),
{
    let modifiers: KeyCode = key & (KEYC_SHIFT | KEYC_META | KEYC_CTRL);
    proof {
        modifier_bits(key);
    }
    if modifiers == KEYC_SHIFT {
        Some(2)
    } else if modifiers == KEYC_META {
        Some(3)
    } else if modifiers == (KEYC_SHIFT | KEYC_META) {
        Some(4)
    } else if modifiers == KEYC_CTRL {
        Some(5)
    } else if modifiers == (KEYC_SHIFT | KEYC_CTRL) {
        Some(6)
    } else if modifiers == (KEYC_META | KEYC_CTRL) {
        Some(7)
    } else if modifiers == (KEYC_SHIFT | KEYC_META | KEYC_CTRL) {
        Some(8)
    } else {
        None
    }
}

/// The three modifier bits of a key, taken together, tell each of them apart.
pub proof fn modifier_bits(key: KeyCode)
    ensures
        ({
            let modifiers = key & (KEYC_SHIFT | KEYC_META | KEYC_CTRL);
            let shift = (key & KEYC_SHIFT) != 0;
            let meta = (key & KEYC_META) != 0;
            let ctrl = (key & KEYC_CTRL) != 0;
            &&& modifiers == KEYC_SHIFT <==> shift && !meta && !ctrl
            &&& modifiers == KEYC_META <==> !shift && meta && !ctrl
            &&& modifiers == (KEYC_SHIFT | KEYC_META) <==> shift && meta && !ctrl
            &&& modifiers == KEYC_CTRL <==> !shift && !meta && ctrl
            &&& modifiers == (KEYC_SHIFT | KEYC_CTRL) <==> shift && !meta && ctrl
            &&& modifiers == (KEYC_META | KEYC_CTRL) <==> !shift && meta && ctrl
            &&& modifiers == (KEYC_SHIFT | KEYC_META | KEYC_CTRL) <==> shift && meta && ctrl
            &&& (key & (KEYC_CTRL | KEYC_META | KEYC_SHIFT)) == modifiers
        }),
{
    assert({
        let modifiers = key & (KEYC_SHIFT | KEYC_META | KEYC_CTRL);
        let shift = (key & KEYC_SHIFT) != 0;
        let meta = (key & KEYC_META) != 0;
        let ctrl = (key & KEYC_CTRL) != 0;
        &&& modifiers == KEYC_SHIFT <==> shift && !meta && !ctrl
        &&& modifiers == KEYC_META <==> !shift && meta && !ctrl
        &&& modifiers == (KEYC_SHIFT | KEYC_META) <==> shift && meta && !ctrl
        &&& modifiers == KEYC_CTRL <==> !shift && !meta && ctrl
        &&& modifiers == (KEYC_SHIFT | KEYC_CTRL) <==> shift && !meta && ctrl
        &&& modifiers == (KEYC_META | KEYC_CTRL) <==> !shift && meta && ctrl
        &&& modifiers == (KEYC_SHIFT | KEYC_META | KEYC_CTRL) <==> shift && meta && ctrl
        &&& (key & (KEYC_CTRL | KEYC_META | KEYC_SHIFT)) == modifiers
    }) by (bit_vector);
}

/// Dropping the keypad and cursor flags leaves the key and its modifiers alone.
pub proof fn active_flags_keep_the_rest(pane_mode: u32, key: KeyCode)
    ensures
        ({
            let active = with_active_flags(pane_mode, key);
            &&& (active & KEYC_MASK_KEY) == (key & KEYC_MASK_KEY)
            &&& (active & KEYC_META) == (key & KEYC_META)
            &&& (active & KEYC_CTRL) == (key & KEYC_CTRL)
            &&& (active & KEYC_SHIFT) == (key & KEYC_SHIFT)
            &&& (active & 0x7f) == (key & 0x7f)
        }),
{
    assert({
        let active = with_active_flags(pane_mode, key);
        &&& (active & KEYC_MASK_KEY) == (key & KEYC_MASK_KEY)
        &&& (active & KEYC_META) == (key & KEYC_META)
        &&& (active & KEYC_CTRL) == (key & KEYC_CTRL)
        &&& (active & KEYC_SHIFT) == (key & KEYC_SHIFT)
        &&& (active & 0x7f) == (key & 0x7f)
    }) by (bit_vector);
}

/// Spells a key in its legacy form.
pub fn input_key_vt10x(pane_mode: u32, key: KeyCode, backspace: u8) -> (bytes: Option<Vec<u8>>)
    ensures
        contents(bytes) == vt10x_form(pane_mode, key, backspace),
{
    match input_key_modified_cursor(key) {
        Some(sequence) => {
            return Some(sequence);
        },
        None => {},
    }
    if is_shift_only_enter(key) {
        return Some(vec![0x0a]);
    }
    let mut output: Vec<u8> = Vec::new();
    if (key & KEYC_META) != 0 {
        output.push(ESC);
    }
    if is_unicode_key(key) {
        return match key_code_to_bytes(key) {
            Some(character) => {
                push_bytes(&mut output, character.as_slice());
                Some(output)
            },
            None => None,
        };
    }
    let ghost pressed = key;
    let mut key: KeyCode = key;
    if (pane_mode & MODE_KKEYPAD) == 0 {
        key = key & !KEYC_KEYPAD;
    }
    if (pane_mode & MODE_KCURSOR) == 0 {
        key = key & !KEYC_CURSOR;
    }
    let only: KeyCode = key & KEYC_MASK_KEY;
    proof {
        modifier_bits(key);
        active_flags_keep_the_rest(pane_mode, pressed);
    }
    if tmux_noop_control_key(key, only) {
        return Some(output);
    }
    match standard_vt10x_sequence_with_fallback(key) {
        Some(sequence) => {
            push_bytes(&mut output, sequence.as_slice());
            return Some(output);
        },
        None => {},
    }
    if only == KEYC_BSPACE {
        output.push(backspace);
        return Some(output);
    }
    if (key & KEYC_CTRL) != 0 && only == ' ' as u64 {
        output.push(0);
        return Some(output);
    }
    if (key & KEYC_CTRL) != 0 && only != 0x0d && only != 0x0a && only != 0x09 {
        return match mapped_control_byte(only) {
            Some(byte) => {
                output.push(byte);
                Some(output)
            },
            None => None,
        };
    }
    output.push(#[verifier::truncate] ((key & 0x7f) as u8));
    Some(output)
}

/// The byte that Control makes of a character.
fn mapped_control_byte(only: KeyCode) -> (byte: Option<u8>)
    ensures
        byte == control_byte(only),
{
    if only == '1' as u64 || only == '!' as u64 {
        Some('1' as u8)
    } else if only == '9' as u64 || only == '(' as u64 {
        Some('9' as u8)
    } else if only == '0' as u64 || only == ')' as u64 {
        Some('0' as u8)
    } else if only == '=' as u64 || only == '+' as u64 {
        Some('=' as u8)
    } else if only == ';' as u64 || only == ':' as u64 {
        Some(';' as u8)
    } else if only == '\'' as u64 || only == '"' as u64 {
        Some('\'' as u8)
    } else if only == ',' as u64 || only == '<' as u64 {
        Some(',' as u8)
    } else if only == '.' as u64 || only == '>' as u64 {
        Some('.' as u8)
    } else if only == '?' as u64 {
        Some(0x7f)
    } else if only == '/' as u64 {
        Some(0x1f)
    } else if only == '2' as u64 {
        Some(0)
    } else if '3' as u64 <= only && only <= '7' as u64 {
        Some(only as u8 - 0x18)
    } else if '@' as u64 <= only && only <= '~' as u64 {
        Some((only % 0x20) as u8)
    } else {
        None
    }
}

/// The legacy sequence of a named key, with the fallbacks for its flags.
fn standard_vt10x_sequence_with_fallback(key: KeyCode) -> (sequence: Option<Vec<u8>>)
    ensures
        contents(sequence) == standard_sequence_with_fallback(key),
{
    match standard_vt10x_sequence(key) {
        Some(sequence) => {
            return Some(sequence);
        },
        None => {},
    }
    if (key & KEYC_CURSOR) != 0 {
        match standard_vt10x_sequence(key & !KEYC_CURSOR) {
            Some(sequence) => {
                return Some(sequence);
            },
            None => {},
        }
    }
    if (key & KEYC_KEYPAD) != 0 {
        return standard_vt10x_sequence(key & !KEYC_KEYPAD);
    }
    None
}

/// Whether Control with this key sends nothing, as in tmux.
pub fn tmux_noop_control_key(key: KeyCode, onlykey: KeyCode) -> (noop: bool)
    ensures
        noop == noop_control_key(key, onlykey),
{
    (key & (KEYC_CTRL | KEYC_META | KEYC_SHIFT)) == KEYC_CTRL && (onlykey == '3' as u64 || onlykey
        == '4' as u64 || onlykey == '5' as u64 || onlykey == '7' as u64 || onlykey == '8' as u64)
}

/// Spells a key that the first extended level keeps in its legacy form.
pub fn input_key_mode1(key: KeyCode, backspace: u8) -> (bytes: Option<Vec<u8>>)
    ensures
        contents(bytes) == mode1_form(key, backspace),
{
    let only: KeyCode = key & KEYC_MASK_KEY;
    if (key & (KEYC_CTRL | KEYC_META)) == KEYC_META {
        return input_key_vt10x(0, key, backspace);
    }
    if (key & KEYC_CTRL) != 0 && (only == ' ' as u64 || only == '/' as u64 || only == '@' as u64
        || only == '^' as u64 || ('2' as u64 <= only && only <= '8' as u64) || ('@' as u64 <= only
        && only <= '~' as u64)) {
        return input_key_vt10x(0, key, backspace);
    }
    None
}

/// The legacy sequence of a named key under any Meta modifier.
pub fn standard_vt10x_sequence(key: KeyCode) -> (sequence: Option<Vec<u8>>)
    ensures
        contents(sequence) == standard_sequence(key),
{
    let base: KeyCode = key & !(KEYC_META | KEYC_IMPLIED_META);
    let sequence: Option<Vec<u8>> = if base == KEYC_F1 {
        Some(vec![ESC, 'O' as u8, 'P' as u8])
    } else if base == KEYC_F2 {
        Some(vec![ESC, 'O' as u8, 'Q' as u8])
    } else if base == KEYC_F3 {
        Some(vec![ESC, 'O' as u8, 'R' as u8])
    } else if base == KEYC_F4 {
        Some(vec![ESC, 'O' as u8, 'S' as u8])
    } else if base == KEYC_F5 {
        Some(vec![ESC, '[' as u8, '1' as u8, '5' as u8, '~' as u8])
    } else if base == KEYC_F6 {
        Some(vec![ESC, '[' as u8, '1' as u8, '7' as u8, '~' as u8])
    } else if base == KEYC_F7 {
        Some(vec![ESC, '[' as u8, '1' as u8, '8' as u8, '~' as u8])
    } else if base == KEYC_F8 {
        Some(vec![ESC, '[' as u8, '1' as u8, '9' as u8, '~' as u8])
    } else if base == KEYC_F9 {
        Some(vec![ESC, '[' as u8, '2' as u8, '0' as u8, '~' as u8])
    } else if base == KEYC_F10 {
        Some(vec![ESC, '[' as u8, '2' as u8, '1' as u8, '~' as u8])
    } else if base == KEYC_F11 {
        Some(vec![ESC, '[' as u8, '2' as u8, '3' as u8, '~' as u8])
    } else if base == KEYC_F12 {
        Some(vec![ESC, '[' as u8, '2' as u8, '4' as u8, '~' as u8])
    } else if base == KEYC_IC {
        Some(vec![ESC, '[' as u8, '2' as u8, '~' as u8])
    } else if base == KEYC_DC {
        Some(vec![ESC, '[' as u8, '3' as u8, '~' as u8])
    } else if base == KEYC_HOME {
        Some(vec![ESC, '[' as u8, '1' as u8, '~' as u8])
    } else if base == KEYC_END {
        Some(vec![ESC, '[' as u8, '4' as u8, '~' as u8])
    } else if base == KEYC_PPAGE {
        Some(vec![ESC, '[' as u8, '5' as u8, '~' as u8])
    } else if base == KEYC_NPAGE {
        Some(vec![ESC, '[' as u8, '6' as u8, '~' as u8])
    } else if base == KEYC_BTAB {
        Some(vec![ESC, '[' as u8, 'Z' as u8])
    } else if base == KEYC_UP {
        Some(vec![ESC, 'O' as u8, 'A' as u8])
    } else if base == (KEYC_UP & !KEYC_CURSOR) {
        Some(vec![ESC, '[' as u8, 'A' as u8])
    } else if base == KEYC_DOWN {
        Some(vec![ESC, 'O' as u8, 'B' as u8])
    } else if base == (KEYC_DOWN & !KEYC_CURSOR) {
        Some(vec![ESC, '[' as u8, 'B' as u8])
    } else if base == KEYC_RIGHT {
        Some(vec![ESC, 'O' as u8, 'C' as u8])
    } else if base == (KEYC_RIGHT & !KEYC_CURSOR) {
        Some(vec![ESC, '[' as u8, 'C' as u8])
    } else if base == KEYC_LEFT {
        Some(vec![ESC, 'O' as u8, 'D' as u8])
    } else if base == (KEYC_LEFT & !KEYC_CURSOR) {
        Some(vec![ESC, '[' as u8, 'D' as u8])
    } else if base == KEYC_KP_SLASH {
        Some(vec![ESC, 'O' as u8, 'o' as u8])
    } else if base == (KEYC_KP_SLASH & !KEYC_KEYPAD) {
        Some(vec!['/' as u8])
    } else if base == KEYC_KP_STAR {
        Some(vec![ESC, 'O' as u8, 'j' as u8])
    } else if base == (KEYC_KP_STAR & !KEYC_KEYPAD) {
        Some(vec!['*' as u8])
    } else if base == KEYC_KP_MINUS {
        Some(vec![ESC, 'O' as u8, 'm' as u8])
    } else if base == (KEYC_KP_MINUS & !KEYC_KEYPAD) {
        Some(vec!['-' as u8])
    } else if base == KEYC_KP_SEVEN {
        Some(vec![ESC, 'O' as u8, 'w' as u8])
    } else if base == (KEYC_KP_SEVEN & !KEYC_KEYPAD) {
        Some(vec!['7' as u8])
    } else if base == KEYC_KP_EIGHT {
        Some(vec![ESC, 'O' as u8, 'x' as u8])
    } else if base == (KEYC_KP_EIGHT & !KEYC_KEYPAD) {
        Some(vec!['8' as u8])
    } else if base == KEYC_KP_NINE {
        Some(vec![ESC, 'O' as u8, 'y' as u8])
    } else if base == (KEYC_KP_NINE & !KEYC_KEYPAD) {
        Some(vec!['9' as u8])
    } else if base == KEYC_KP_PLUS {
        Some(vec![ESC, 'O' as u8, 'k' as u8])
    } else if base == (KEYC_KP_PLUS & !KEYC_KEYPAD) {
        Some(vec!['+' as u8])
    } else if base == KEYC_KP_FOUR {
        Some(vec![ESC, 'O' as u8, 't' as u8])
    } else if base == (KEYC_KP_FOUR & !KEYC_KEYPAD) {
        Some(vec!['4' as u8])
    } else if base == KEYC_KP_FIVE {
        Some(vec![ESC, 'O' as u8, 'u' as u8])
    } else if base == (KEYC_KP_FIVE & !KEYC_KEYPAD) {
        Some(vec!['5' as u8])
    } else if base == KEYC_KP_SIX {
        Some(vec![ESC, 'O' as u8, 'v' as u8])
    } else if base == (KEYC_KP_SIX & !KEYC_KEYPAD) {
        Some(vec!['6' as u8])
    } else if base == KEYC_KP_ONE {
        Some(vec![ESC, 'O' as u8, 'q' as u8])
    } else if base == (KEYC_KP_ONE & !KEYC_KEYPAD) {
        Some(vec!['1' as u8])
    } else if base == KEYC_KP_TWO {
        Some(vec![ESC, 'O' as u8, 'r' as u8])
    } else if base == (KEYC_KP_TWO & !KEYC_KEYPAD) {
        Some(vec!['2' as u8])
    } else if base == KEYC_KP_THREE {
        Some(vec![ESC, 'O' as u8, 's' as u8])
    } else if base == (KEYC_KP_THREE & !KEYC_KEYPAD) {
        Some(vec!['3' as u8])
    } else if base == KEYC_KP_ENTER {
        Some(vec![ESC, 'O' as u8, 'M' as u8])
    } else if base == (KEYC_KP_ENTER & !KEYC_KEYPAD) {
        Some(vec!['\r' as u8])
    } else if base == KEYC_KP_ZERO {
        Some(vec![ESC, 'O' as u8, 'p' as u8])
    } else if base == (KEYC_KP_ZERO & !KEYC_KEYPAD) {
        Some(vec!['0' as u8])
    } else if base == KEYC_KP_PERIOD {
        Some(vec![ESC, 'O' as u8, 'n' as u8])
    } else if base == (KEYC_KP_PERIOD & !KEYC_KEYPAD) {
        Some(vec!['.' as u8])
    } else {
        None
    };
    sequence
}

/// Whether the key is a character outside ASCII.
pub fn is_unicode_key(key: KeyCode) -> (unicode: bool)
    ensures
        unicode == unicode_key(key),
{
    (key & KEYC_MASK_TYPE) == 0 && (key & KEYC_MASK_KEY) > 0x7f
}

/// Whether the key is sent as its own character in every pane mode.
pub fn is_trivial_key(key: KeyCode) -> (trivial: bool)
    ensures
        trivial == trivial_key(key),
{
    let modifiers: KeyCode = key & (KEYC_SHIFT | KEYC_CTRL | KEYC_META | KEYC_IMPLIED_META);
    if modifiers != 0 {
        return false;
    }
    let only: KeyCode = key & KEYC_MASK_KEY;
    only == 0x0d || only == 0x09 || only == 0x1b || (0x20 <= only && only <= 0x7f) || only
        == KEYC_BSPACE || is_unicode_key(key)
}

/// Whether the key is Shift-Tab.
pub fn is_backtab(key: KeyCode) -> (yes: bool)
    ensures
        yes == backtab(key),
{
    (key & KEYC_MASK_KEY) == (KEYC_BTAB & KEYC_MASK_KEY)
}

/// Whether Shift adds nothing to the key and is dropped from it.
pub fn should_strip_shift(key: KeyCode) -> (strip: bool)
    ensures
        strip == redundant_shift(key),
{
    let only: KeyCode = key & KEYC_MASK_KEY;
    ((0x21 <= only && only < 0x7f) || is_unicode_key(key)) && (key & KEYC_MASK_MODIFIERS)
        == KEYC_SHIFT
}

/// Whether the key is Tab, under any modifiers.
pub fn is_tab(key: KeyCode) -> (yes: bool)
    ensures
        yes == tab(key),
{
    (key & KEYC_MASK_KEY) == 0x09
}

/// Whether the key is Enter with Shift and no other modifier.
pub fn is_shift_only_enter(key: KeyCode) -> (yes: bool)
    ensures
        yes == shift_only_enter(key),
{
    (key & KEYC_MASK_KEY) == 0x0d && (key & KEYC_MASK_MODIFIERS) == KEYC_SHIFT
}

} // verus!
