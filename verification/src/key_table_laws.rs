//! Which bytes the named keys send, key by key.
use crate::input_keys::{
    active_flags_keep_the_rest, encoded_key, modifier_bits, named_sequence, with_active_flags,
    ExtendedKeyFormat, DEFAULT_BACKSPACE,
};
use crate::key_code::{
    named_key, KEYC_BTAB, KEYC_CTRL, KEYC_CURSOR, KEYC_DOWN, KEYC_IMPLIED_META, KEYC_KEYPAD,
    KEYC_KP_EIGHT, KEYC_KP_ENTER, KEYC_KP_FIVE, KEYC_KP_FOUR, KEYC_KP_MINUS, KEYC_KP_NINE,
    KEYC_KP_ONE, KEYC_KP_PERIOD, KEYC_KP_PLUS, KEYC_KP_SEVEN, KEYC_KP_SIX, KEYC_KP_SLASH,
    KEYC_KP_STAR, KEYC_KP_THREE, KEYC_KP_TWO, KEYC_KP_ZERO, KEYC_LEFT, KEYC_MASK_KEY,
    KEYC_MASK_MODIFIERS, KEYC_MASK_TYPE, KEYC_META, KEYC_RIGHT, KEYC_SHIFT, KEYC_UP,
};
use crate::key_laws::named_keys_keep_their_legacy_form;
use crate::pane_mode::{
    MODE_CURSOR, MODE_KCURSOR, MODE_KEYS_EXTENDED, MODE_KEYS_EXTENDED_2, MODE_KEYS_KITTY,
    MODE_KKEYPAD,
};
use vstd::prelude::*;

verus! {

/// The keys of the table without their flags, as numbers.
pub proof fn table_payloads()
    ensures
        ({
        &&& (KEYC_UP & !KEYC_CURSOR) == 0x0000_0002_0000_001b
        &&& (KEYC_DOWN & !KEYC_CURSOR) == 0x0000_0002_0000_001c
        &&& (KEYC_LEFT & !KEYC_CURSOR) == 0x0000_0002_0000_001d
        &&& (KEYC_RIGHT & !KEYC_CURSOR) == 0x0000_0002_0000_001e
        &&& (KEYC_KP_SLASH & !KEYC_KEYPAD) == 0x0000_0002_0000_001f
        &&& (KEYC_KP_STAR & !KEYC_KEYPAD) == 0x0000_0002_0000_0020
        &&& (KEYC_KP_MINUS & !KEYC_KEYPAD) == 0x0000_0002_0000_0021
        &&& (KEYC_KP_SEVEN & !KEYC_KEYPAD) == 0x0000_0002_0000_0022
        &&& (KEYC_KP_EIGHT & !KEYC_KEYPAD) == 0x0000_0002_0000_0023
        &&& (KEYC_KP_NINE & !KEYC_KEYPAD) == 0x0000_0002_0000_0024
        &&& (KEYC_KP_PLUS & !KEYC_KEYPAD) == 0x0000_0002_0000_0025
        &&& (KEYC_KP_FOUR & !KEYC_KEYPAD) == 0x0000_0002_0000_0026
        &&& (KEYC_KP_FIVE & !KEYC_KEYPAD) == 0x0000_0002_0000_0027
        &&& (KEYC_KP_SIX & !KEYC_KEYPAD) == 0x0000_0002_0000_0028
        &&& (KEYC_KP_ONE & !KEYC_KEYPAD) == 0x0000_0002_0000_0029
        &&& (KEYC_KP_TWO & !KEYC_KEYPAD) == 0x0000_0002_0000_002a
        &&& (KEYC_KP_THREE & !KEYC_KEYPAD) == 0x0000_0002_0000_002b
        &&& (KEYC_KP_ENTER & !KEYC_KEYPAD) == 0x0000_0002_0000_002c
        &&& (KEYC_KP_ZERO & !KEYC_KEYPAD) == 0x0000_0002_0000_002d
        &&& (KEYC_KP_PERIOD & !KEYC_KEYPAD) == 0x0000_0002_0000_002e
        }),
{
    assert({
        &&& (KEYC_UP & !KEYC_CURSOR) == 0x0000_0002_0000_001b
        &&& (KEYC_DOWN & !KEYC_CURSOR) == 0x0000_0002_0000_001c
        &&& (KEYC_LEFT & !KEYC_CURSOR) == 0x0000_0002_0000_001d
        &&& (KEYC_RIGHT & !KEYC_CURSOR) == 0x0000_0002_0000_001e
        &&& (KEYC_KP_SLASH & !KEYC_KEYPAD) == 0x0000_0002_0000_001f
        &&& (KEYC_KP_STAR & !KEYC_KEYPAD) == 0x0000_0002_0000_0020
        &&& (KEYC_KP_MINUS & !KEYC_KEYPAD) == 0x0000_0002_0000_0021
        &&& (KEYC_KP_SEVEN & !KEYC_KEYPAD) == 0x0000_0002_0000_0022
        &&& (KEYC_KP_EIGHT & !KEYC_KEYPAD) == 0x0000_0002_0000_0023
        &&& (KEYC_KP_NINE & !KEYC_KEYPAD) == 0x0000_0002_0000_0024
        &&& (KEYC_KP_PLUS & !KEYC_KEYPAD) == 0x0000_0002_0000_0025
        &&& (KEYC_KP_FOUR & !KEYC_KEYPAD) == 0x0000_0002_0000_0026
        &&& (KEYC_KP_FIVE & !KEYC_KEYPAD) == 0x0000_0002_0000_0027
        &&& (KEYC_KP_SIX & !KEYC_KEYPAD) == 0x0000_0002_0000_0028
        &&& (KEYC_KP_ONE & !KEYC_KEYPAD) == 0x0000_0002_0000_0029
        &&& (KEYC_KP_TWO & !KEYC_KEYPAD) == 0x0000_0002_0000_002a
        &&& (KEYC_KP_THREE & !KEYC_KEYPAD) == 0x0000_0002_0000_002b
        &&& (KEYC_KP_ENTER & !KEYC_KEYPAD) == 0x0000_0002_0000_002c
        &&& (KEYC_KP_ZERO & !KEYC_KEYPAD) == 0x0000_0002_0000_002d
        &&& (KEYC_KP_PERIOD & !KEYC_KEYPAD) == 0x0000_0002_0000_002e
    }) by (bit_vector);
}

/// What the masks make of a named key with one flag at most, and no modifier.
pub proof fn named_key_bits(pane_mode: u32, payload: u64, flag: u64)
    requires
        0x2_0000_0008 <= payload <= 0x2_0000_002e,
        flag == 0 || flag == KEYC_CURSOR || flag == KEYC_KEYPAD,
    ensures
        payload + flag <= u64::MAX,
        ({
            let key = (payload + flag) as u64;
            let active = with_active_flags(pane_mode, key);
            &&& (key & KEYC_MASK_KEY) == payload
            &&& (key & KEYC_MASK_TYPE) != 0
            &&& (key & KEYC_MASK_MODIFIERS) == 0
            &&& (key & (KEYC_SHIFT | KEYC_CTRL)) == 0
            &&& (key & KEYC_SHIFT) == 0
            &&& (key & KEYC_META) == 0
            &&& (key & KEYC_CTRL) == 0
            &&& (key & !(KEYC_META | KEYC_IMPLIED_META)) == key
            &&& (active & !(KEYC_META | KEYC_IMPLIED_META)) == active
            &&& flag == 0 ==> active == payload
            &&& flag == KEYC_CURSOR ==> active == (if (pane_mode & MODE_KCURSOR) != 0 {
                key
            } else {
                payload
            })
            &&& flag == KEYC_KEYPAD ==> active == (if (pane_mode & MODE_KKEYPAD) != 0 {
                key
            } else {
                payload
            })
        }),
{
    assert(payload + flag <= u64::MAX && ({
        let key = (payload + flag) as u64;
        let active = with_active_flags(pane_mode, key);
        &&& (key & KEYC_MASK_KEY) == payload
        &&& (key & KEYC_MASK_TYPE) != 0
        &&& (key & KEYC_MASK_MODIFIERS) == 0
        &&& (key & (KEYC_SHIFT | KEYC_CTRL)) == 0
        &&& (key & KEYC_SHIFT) == 0
        &&& (key & KEYC_META) == 0
        &&& (key & KEYC_CTRL) == 0
        &&& (key & !(KEYC_META | KEYC_IMPLIED_META)) == key
        &&& (active & !(KEYC_META | KEYC_IMPLIED_META)) == active
        &&& flag == 0 ==> active == payload
        &&& flag == KEYC_CURSOR ==> active == (if (pane_mode & MODE_KCURSOR) != 0 {
            key
        } else {
            payload
        })
        &&& flag == KEYC_KEYPAD ==> active == (if (pane_mode & MODE_KKEYPAD) != 0 {
            key
        } else {
            payload
        })
    })) by (bit_vector)
        requires
            0x2_0000_0008 <= payload && payload <= 0x2_0000_002e,
            flag == 0 || flag == KEYC_CURSOR || flag == KEYC_KEYPAD,
    ;
}

/// A named key without modifiers sends its sequence, with the flags that the pane has
/// asked for.
pub proof fn plain_named_key(
    pane_mode: u32,
    format: ExtendedKeyFormat,
    payload: u64,
    flag: u64,
    erase: u8,
)
    requires
        0x2_0000_0008 <= payload <= 0x2_0000_002e,
        payload != 0x2_0000_001a,
        flag == 0 || flag == KEYC_CURSOR || flag == KEYC_KEYPAD,
        named_sequence((payload + flag) as u64) is Some,
        named_sequence(payload) is Some,
    ensures
        encoded_key(pane_mode, format, (payload + flag) as u64, erase) == named_sequence(
            if flag == KEYC_CURSOR && (pane_mode & MODE_KCURSOR) != 0 || flag == KEYC_KEYPAD && (
            pane_mode & MODE_KKEYPAD) != 0 {
                (payload + flag) as u64
            } else {
                payload
            },
        ),
{
    let key = (payload + flag) as u64;
    named_key_bits(pane_mode, payload, flag);
    assert((KEYC_BTAB & KEYC_MASK_KEY) == 0x2_0000_001a) by (bit_vector);
    named_keys_keep_their_legacy_form(pane_mode, format, key, erase);
    active_flags_keep_the_rest(pane_mode, key);
    modifier_bits(with_active_flags(pane_mode, key));
    let sequence = named_sequence(with_active_flags(pane_mode, key))->0;
    assert(seq![] + sequence =~= sequence);
}

/// Every name stands for its own key.
pub proof fn names_stand_for_keys()
    ensures
        named_key("BSpace"@) == Some(0x0000_0002_0000_0007u64),
        named_key("F1"@) == Some(0x0000_0002_0000_0008u64),
        named_key("F2"@) == Some(0x0000_0002_0000_0009u64),
        named_key("F3"@) == Some(0x0000_0002_0000_000au64),
        named_key("F4"@) == Some(0x0000_0002_0000_000bu64),
        named_key("F5"@) == Some(0x0000_0002_0000_000cu64),
        named_key("F6"@) == Some(0x0000_0002_0000_000du64),
        named_key("F7"@) == Some(0x0000_0002_0000_000eu64),
        named_key("F8"@) == Some(0x0000_0002_0000_000fu64),
        named_key("F9"@) == Some(0x0000_0002_0000_0010u64),
        named_key("F10"@) == Some(0x0000_0002_0000_0011u64),
        named_key("F11"@) == Some(0x0000_0002_0000_0012u64),
        named_key("F12"@) == Some(0x0000_0002_0000_0013u64),
        named_key("IC"@) == Some(0x0000_0002_0000_0014u64),
        named_key("DC"@) == Some(0x0000_0002_0000_0015u64),
        named_key("Home"@) == Some(0x0000_0002_0000_0016u64),
        named_key("End"@) == Some(0x0000_0002_0000_0017u64),
        named_key("PageDown"@) == Some(0x0000_0002_0000_0018u64),
        named_key("PageUp"@) == Some(0x0000_0002_0000_0019u64),
        named_key("BTab"@) == Some(0x0000_0002_0000_001au64),
        named_key("Up"@) == Some(0x0004_0002_0000_001bu64),
        named_key("Down"@) == Some(0x0004_0002_0000_001cu64),
        named_key("Left"@) == Some(0x0004_0002_0000_001du64),
        named_key("Right"@) == Some(0x0004_0002_0000_001eu64),
        named_key("KP/"@) == Some(0x0002_0002_0000_001fu64),
        named_key("KP*"@) == Some(0x0002_0002_0000_0020u64),
        named_key("KP-"@) == Some(0x0002_0002_0000_0021u64),
        named_key("KP7"@) == Some(0x0002_0002_0000_0022u64),
        named_key("KP8"@) == Some(0x0002_0002_0000_0023u64),
        named_key("KP9"@) == Some(0x0002_0002_0000_0024u64),
        named_key("KP+"@) == Some(0x0002_0002_0000_0025u64),
        named_key("KP4"@) == Some(0x0002_0002_0000_0026u64),
        named_key("KP5"@) == Some(0x0002_0002_0000_0027u64),
        named_key("KP6"@) == Some(0x0002_0002_0000_0028u64),
        named_key("KP1"@) == Some(0x0002_0002_0000_0029u64),
        named_key("KP2"@) == Some(0x0002_0002_0000_002au64),
        named_key("KP3"@) == Some(0x0002_0002_0000_002bu64),
        named_key("KPEnter"@) == Some(0x0002_0002_0000_002cu64),
        named_key("KP0"@) == Some(0x0002_0002_0000_002du64),
        named_key("KP."@) == Some(0x0002_0002_0000_002eu64),
{
    reveal_strlit("BSpace");
    reveal_strlit("F1");
    reveal_strlit("F2");
    reveal_strlit("F3");
    reveal_strlit("F4");
    reveal_strlit("F5");
    reveal_strlit("F6");
    reveal_strlit("F7");
    reveal_strlit("F8");
    reveal_strlit("F9");
    reveal_strlit("F10");
    reveal_strlit("F11");
    reveal_strlit("F12");
    reveal_strlit("IC");
    reveal_strlit("DC");
    reveal_strlit("Home");
    reveal_strlit("End");
    reveal_strlit("PageDown");
    reveal_strlit("PageUp");
    reveal_strlit("BTab");
    reveal_strlit("Up");
    reveal_strlit("Down");
    reveal_strlit("Left");
    reveal_strlit("Right");
    reveal_strlit("KP/");
    reveal_strlit("KP*");
    reveal_strlit("KP-");
    reveal_strlit("KP7");
    reveal_strlit("KP8");
    reveal_strlit("KP9");
    reveal_strlit("KP+");
    reveal_strlit("KP4");
    reveal_strlit("KP5");
    reveal_strlit("KP6");
    reveal_strlit("KP1");
    reveal_strlit("KP2");
    reveal_strlit("KP3");
    reveal_strlit("KPEnter");
    reveal_strlit("KP0");
    reveal_strlit("KP.");
    assert("BSpace"@ =~= seq!['B', 'S', 'p', 'a', 'c', 'e']);
    assert("F1"@ =~= seq!['F', '1']);
    assert("F2"@ =~= seq!['F', '2']);
    assert("F3"@ =~= seq!['F', '3']);
    assert("F4"@ =~= seq!['F', '4']);
    assert("F5"@ =~= seq!['F', '5']);
    assert("F6"@ =~= seq!['F', '6']);
    assert("F7"@ =~= seq!['F', '7']);
    assert("F8"@ =~= seq!['F', '8']);
    assert("F9"@ =~= seq!['F', '9']);
    assert("F10"@ =~= seq!['F', '1', '0']);
    assert("F11"@ =~= seq!['F', '1', '1']);
    assert("F12"@ =~= seq!['F', '1', '2']);
    assert("IC"@ =~= seq!['I', 'C']);
    assert("DC"@ =~= seq!['D', 'C']);
    assert("Home"@ =~= seq!['H', 'o', 'm', 'e']);
    assert("End"@ =~= seq!['E', 'n', 'd']);
    assert("PageDown"@ =~= seq!['P', 'a', 'g', 'e', 'D', 'o', 'w', 'n']);
    assert("PageUp"@ =~= seq!['P', 'a', 'g', 'e', 'U', 'p']);
    assert("BTab"@ =~= seq!['B', 'T', 'a', 'b']);
    assert("Up"@ =~= seq!['U', 'p']);
    assert("Down"@ =~= seq!['D', 'o', 'w', 'n']);
    assert("Left"@ =~= seq!['L', 'e', 'f', 't']);
    assert("Right"@ =~= seq!['R', 'i', 'g', 'h', 't']);
    assert("KP/"@ =~= seq!['K', 'P', '/']);
    assert("KP*"@ =~= seq!['K', 'P', '*']);
    assert("KP-"@ =~= seq!['K', 'P', '-']);
    assert("KP7"@ =~= seq!['K', 'P', '7']);
    assert("KP8"@ =~= seq!['K', 'P', '8']);
    assert("KP9"@ =~= seq!['K', 'P', '9']);
    assert("KP+"@ =~= seq!['K', 'P', '+']);
    assert("KP4"@ =~= seq!['K', 'P', '4']);
    assert("KP5"@ =~= seq!['K', 'P', '5']);
    assert("KP6"@ =~= seq!['K', 'P', '6']);
    assert("KP1"@ =~= seq!['K', 'P', '1']);
    assert("KP2"@ =~= seq!['K', 'P', '2']);
    assert("KP3"@ =~= seq!['K', 'P', '3']);
    assert("KPEnter"@ =~= seq!['K', 'P', 'E', 'n', 't', 'e', 'r']);
    assert("KP0"@ =~= seq!['K', 'P', '0']);
    assert("KP."@ =~= seq!['K', 'P', '.']);
}

/// The keys that are neither arrows nor on the keypad send the sequences of the xterm
/// table in every pane mode and format.
#[verifier::rlimit(40)]
pub proof fn function_keys_send_their_sequences(pane_mode: u32, format: ExtendedKeyFormat, erase: u8)
    ensures
        encoded_key(pane_mode, format, 0x0000_0002_0000_0008, erase) == Some(
            seq![0x1bu8, 0x4f, 0x50],
        ),
        encoded_key(pane_mode, format, 0x0000_0002_0000_0009, erase) == Some(
            seq![0x1bu8, 0x4f, 0x51],
        ),
        encoded_key(pane_mode, format, 0x0000_0002_0000_000a, erase) == Some(
            seq![0x1bu8, 0x4f, 0x52],
        ),
        encoded_key(pane_mode, format, 0x0000_0002_0000_000b, erase) == Some(
            seq![0x1bu8, 0x4f, 0x53],
        ),
        encoded_key(pane_mode, format, 0x0000_0002_0000_000c, erase) == Some(
            seq![0x1bu8, 0x5b, 0x31, 0x35, 0x7e],
        ),
        encoded_key(pane_mode, format, 0x0000_0002_0000_000d, erase) == Some(
            seq![0x1bu8, 0x5b, 0x31, 0x37, 0x7e],
        ),
        encoded_key(pane_mode, format, 0x0000_0002_0000_000e, erase) == Some(
            seq![0x1bu8, 0x5b, 0x31, 0x38, 0x7e],
        ),
        encoded_key(pane_mode, format, 0x0000_0002_0000_000f, erase) == Some(
            seq![0x1bu8, 0x5b, 0x31, 0x39, 0x7e],
        ),
        encoded_key(pane_mode, format, 0x0000_0002_0000_0010, erase) == Some(
            seq![0x1bu8, 0x5b, 0x32, 0x30, 0x7e],
        ),
        encoded_key(pane_mode, format, 0x0000_0002_0000_0011, erase) == Some(
            seq![0x1bu8, 0x5b, 0x32, 0x31, 0x7e],
        ),
        encoded_key(pane_mode, format, 0x0000_0002_0000_0012, erase) == Some(
            seq![0x1bu8, 0x5b, 0x32, 0x33, 0x7e],
        ),
        encoded_key(pane_mode, format, 0x0000_0002_0000_0013, erase) == Some(
            seq![0x1bu8, 0x5b, 0x32, 0x34, 0x7e],
        ),
        encoded_key(pane_mode, format, 0x0000_0002_0000_0014, erase) == Some(
            seq![0x1bu8, 0x5b, 0x32, 0x7e],
        ),
        encoded_key(pane_mode, format, 0x0000_0002_0000_0015, erase) == Some(
            seq![0x1bu8, 0x5b, 0x33, 0x7e],
        ),
        encoded_key(pane_mode, format, 0x0000_0002_0000_0016, erase) == Some(
            seq![0x1bu8, 0x5b, 0x31, 0x7e],
        ),
        encoded_key(pane_mode, format, 0x0000_0002_0000_0017, erase) == Some(
            seq![0x1bu8, 0x5b, 0x34, 0x7e],
        ),
        encoded_key(pane_mode, format, 0x0000_0002_0000_0018, erase) == Some(
            seq![0x1bu8, 0x5b, 0x36, 0x7e],
        ),
        encoded_key(pane_mode, format, 0x0000_0002_0000_0019, erase) == Some(
            seq![0x1bu8, 0x5b, 0x35, 0x7e],
        ),
{
    plain_named_key(pane_mode, format, 0x0000_0002_0000_0008, 0, erase);
    plain_named_key(pane_mode, format, 0x0000_0002_0000_0009, 0, erase);
    plain_named_key(pane_mode, format, 0x0000_0002_0000_000a, 0, erase);
    plain_named_key(pane_mode, format, 0x0000_0002_0000_000b, 0, erase);
    plain_named_key(pane_mode, format, 0x0000_0002_0000_000c, 0, erase);
    plain_named_key(pane_mode, format, 0x0000_0002_0000_000d, 0, erase);
    plain_named_key(pane_mode, format, 0x0000_0002_0000_000e, 0, erase);
    plain_named_key(pane_mode, format, 0x0000_0002_0000_000f, 0, erase);
    plain_named_key(pane_mode, format, 0x0000_0002_0000_0010, 0, erase);
    plain_named_key(pane_mode, format, 0x0000_0002_0000_0011, 0, erase);
    plain_named_key(pane_mode, format, 0x0000_0002_0000_0012, 0, erase);
    plain_named_key(pane_mode, format, 0x0000_0002_0000_0013, 0, erase);
    plain_named_key(pane_mode, format, 0x0000_0002_0000_0014, 0, erase);
    plain_named_key(pane_mode, format, 0x0000_0002_0000_0015, 0, erase);
    plain_named_key(pane_mode, format, 0x0000_0002_0000_0016, 0, erase);
    plain_named_key(pane_mode, format, 0x0000_0002_0000_0017, 0, erase);
    plain_named_key(pane_mode, format, 0x0000_0002_0000_0018, 0, erase);
    plain_named_key(pane_mode, format, 0x0000_0002_0000_0019, 0, erase);
}

/// The arrow keys send `ESC [` and a letter, or `ESC O` and that letter in application
/// cursor mode, in every format.
#[verifier::rlimit(40)]
pub proof fn arrow_keys_send_their_sequences(pane_mode: u32, format: ExtendedKeyFormat, erase: u8)
    ensures
        encoded_key(pane_mode, format, 0x0004_0002_0000_001b, erase) == Some(
            if (pane_mode & MODE_KCURSOR) != 0 {
                seq![0x1bu8, 0x4f, 0x41]
            } else {
                seq![0x1bu8, 0x5b, 0x41]
            },
        ),
        encoded_key(pane_mode, format, 0x0004_0002_0000_001c, erase) == Some(
            if (pane_mode & MODE_KCURSOR) != 0 {
                seq![0x1bu8, 0x4f, 0x42]
            } else {
                seq![0x1bu8, 0x5b, 0x42]
            },
        ),
        encoded_key(pane_mode, format, 0x0004_0002_0000_001d, erase) == Some(
            if (pane_mode & MODE_KCURSOR) != 0 {
                seq![0x1bu8, 0x4f, 0x44]
            } else {
                seq![0x1bu8, 0x5b, 0x44]
            },
        ),
        encoded_key(pane_mode, format, 0x0004_0002_0000_001e, erase) == Some(
            if (pane_mode & MODE_KCURSOR) != 0 {
                seq![0x1bu8, 0x4f, 0x43]
            } else {
                seq![0x1bu8, 0x5b, 0x43]
            },
        ),
{
    table_payloads();
    plain_named_key(pane_mode, format, 0x0000_0002_0000_001b, KEYC_CURSOR, erase);
    plain_named_key(pane_mode, format, 0x0000_0002_0000_001c, KEYC_CURSOR, erase);
    plain_named_key(pane_mode, format, 0x0000_0002_0000_001d, KEYC_CURSOR, erase);
    plain_named_key(pane_mode, format, 0x0000_0002_0000_001e, KEYC_CURSOR, erase);
}

/// The keypad keys send the character on them, or `ESC O` and a letter in application
/// keypad mode, in every format.
#[verifier::rlimit(40)]
pub proof fn keypad_keys_send_their_sequences(pane_mode: u32, format: ExtendedKeyFormat, erase: u8)
    ensures
        encoded_key(pane_mode, format, 0x0002_0002_0000_001f, erase) == Some(
            if (pane_mode & MODE_KKEYPAD) != 0 {
                seq![0x1bu8, 0x4f, 0x6f]
            } else {
                seq![0x2fu8]
            },
        ),
        encoded_key(pane_mode, format, 0x0002_0002_0000_0020, erase) == Some(
            if (pane_mode & MODE_KKEYPAD) != 0 {
                seq![0x1bu8, 0x4f, 0x6a]
            } else {
                seq![0x2au8]
            },
        ),
        encoded_key(pane_mode, format, 0x0002_0002_0000_0021, erase) == Some(
            if (pane_mode & MODE_KKEYPAD) != 0 {
                seq![0x1bu8, 0x4f, 0x6d]
            } else {
                seq![0x2du8]
            },
        ),
        encoded_key(pane_mode, format, 0x0002_0002_0000_0022, erase) == Some(
            if (pane_mode & MODE_KKEYPAD) != 0 {
                seq![0x1bu8, 0x4f, 0x77]
            } else {
                seq![0x37u8]
            },
        ),
        encoded_key(pane_mode, format, 0x0002_0002_0000_0023, erase) == Some(
            if (pane_mode & MODE_KKEYPAD) != 0 {
                seq![0x1bu8, 0x4f, 0x78]
            } else {
                seq![0x38u8]
            },
        ),
        encoded_key(pane_mode, format, 0x0002_0002_0000_0024, erase) == Some(
            if (pane_mode & MODE_KKEYPAD) != 0 {
                seq![0x1bu8, 0x4f, 0x79]
            } else {
                seq![0x39u8]
            },
        ),
        encoded_key(pane_mode, format, 0x0002_0002_0000_0025, erase) == Some(
            if (pane_mode & MODE_KKEYPAD) != 0 {
                seq![0x1bu8, 0x4f, 0x6b]
            } else {
                seq![0x2bu8]
            },
        ),
        encoded_key(pane_mode, format, 0x0002_0002_0000_0026, erase) == Some(
            if (pane_mode & MODE_KKEYPAD) != 0 {
                seq![0x1bu8, 0x4f, 0x74]
            } else {
                seq![0x34u8]
            },
        ),
        encoded_key(pane_mode, format, 0x0002_0002_0000_0027, erase) == Some(
            if (pane_mode & MODE_KKEYPAD) != 0 {
                seq![0x1bu8, 0x4f, 0x75]
            } else {
                seq![0x35u8]
            },
        ),
        encoded_key(pane_mode, format, 0x0002_0002_0000_0028, erase) == Some(
            if (pane_mode & MODE_KKEYPAD) != 0 {
                seq![0x1bu8, 0x4f, 0x76]
            } else {
                seq![0x36u8]
            },
        ),
        encoded_key(pane_mode, format, 0x0002_0002_0000_0029, erase) == Some(
            if (pane_mode & MODE_KKEYPAD) != 0 {
                seq![0x1bu8, 0x4f, 0x71]
            } else {
                seq![0x31u8]
            },
        ),
        encoded_key(pane_mode, format, 0x0002_0002_0000_002a, erase) == Some(
            if (pane_mode & MODE_KKEYPAD) != 0 {
                seq![0x1bu8, 0x4f, 0x72]
            } else {
                seq![0x32u8]
            },
        ),
        encoded_key(pane_mode, format, 0x0002_0002_0000_002b, erase) == Some(
            if (pane_mode & MODE_KKEYPAD) != 0 {
                seq![0x1bu8, 0x4f, 0x73]
            } else {
                seq![0x33u8]
            },
        ),
        encoded_key(pane_mode, format, 0x0002_0002_0000_002c, erase) == Some(
            if (pane_mode & MODE_KKEYPAD) != 0 {
                seq![0x1bu8, 0x4f, 0x4d]
            } else {
                seq![0x0du8]
            },
        ),
        encoded_key(pane_mode, format, 0x0002_0002_0000_002d, erase) == Some(
            if (pane_mode & MODE_KKEYPAD) != 0 {
                seq![0x1bu8, 0x4f, 0x70]
            } else {
                seq![0x30u8]
            },
        ),
        encoded_key(pane_mode, format, 0x0002_0002_0000_002e, erase) == Some(
            if (pane_mode & MODE_KKEYPAD) != 0 {
                seq![0x1bu8, 0x4f, 0x6e]
            } else {
                seq![0x2eu8]
            },
        ),
{
    table_payloads();
    plain_named_key(pane_mode, format, 0x0000_0002_0000_001f, KEYC_KEYPAD, erase);
    plain_named_key(pane_mode, format, 0x0000_0002_0000_0020, KEYC_KEYPAD, erase);
    plain_named_key(pane_mode, format, 0x0000_0002_0000_0021, KEYC_KEYPAD, erase);
    plain_named_key(pane_mode, format, 0x0000_0002_0000_0022, KEYC_KEYPAD, erase);
    plain_named_key(pane_mode, format, 0x0000_0002_0000_0023, KEYC_KEYPAD, erase);
    plain_named_key(pane_mode, format, 0x0000_0002_0000_0024, KEYC_KEYPAD, erase);
    plain_named_key(pane_mode, format, 0x0000_0002_0000_0025, KEYC_KEYPAD, erase);
    plain_named_key(pane_mode, format, 0x0000_0002_0000_0026, KEYC_KEYPAD, erase);
    plain_named_key(pane_mode, format, 0x0000_0002_0000_0027, KEYC_KEYPAD, erase);
    plain_named_key(pane_mode, format, 0x0000_0002_0000_0028, KEYC_KEYPAD, erase);
    plain_named_key(pane_mode, format, 0x0000_0002_0000_0029, KEYC_KEYPAD, erase);
    plain_named_key(pane_mode, format, 0x0000_0002_0000_002a, KEYC_KEYPAD, erase);
    plain_named_key(pane_mode, format, 0x0000_0002_0000_002b, KEYC_KEYPAD, erase);
    plain_named_key(pane_mode, format, 0x0000_0002_0000_002c, KEYC_KEYPAD, erase);
    plain_named_key(pane_mode, format, 0x0000_0002_0000_002d, KEYC_KEYPAD, erase);
    plain_named_key(pane_mode, format, 0x0000_0002_0000_002e, KEYC_KEYPAD, erase);
}

/// Only the names of keys stand for keys.
pub proof fn no_other_name_stands_for_a_key(name: Seq<char>)
    requires
        named_key(name) is Some,
    ensures
        name == "BSpace"@
            || name == "F1"@
            || name == "F2"@
            || name == "F3"@
            || name == "F4"@
            || name == "F5"@
            || name == "F6"@
            || name == "F7"@
            || name == "F8"@
            || name == "F9"@
            || name == "F10"@
            || name == "F11"@
            || name == "F12"@
            || name == "IC"@
            || name == "DC"@
            || name == "Home"@
            || name == "End"@
            || name == "PageDown"@
            || name == "PageUp"@
            || name == "BTab"@
            || name == "Up"@
            || name == "Down"@
            || name == "Left"@
            || name == "Right"@
            || name == "KP/"@
            || name == "KP*"@
            || name == "KP-"@
            || name == "KP7"@
            || name == "KP8"@
            || name == "KP9"@
            || name == "KP+"@
            || name == "KP4"@
            || name == "KP5"@
            || name == "KP6"@
            || name == "KP1"@
            || name == "KP2"@
            || name == "KP3"@
            || name == "KPEnter"@
            || name == "KP0"@
            || name == "KP."@,
{
}

/// The modifiers, the flags of a key and the bits that name it, by number.
pub proof fn key_bits_by_number()
    ensures
        KEYC_META == 0x0000_1000_0000_0000,
        KEYC_CTRL == 0x0000_2000_0000_0000,
        KEYC_SHIFT == 0x0000_4000_0000_0000,
        KEYC_KEYPAD == 0x0002_0000_0000_0000,
        KEYC_CURSOR == 0x0004_0000_0000_0000,
        KEYC_IMPLIED_META == 0x0008_0000_0000_0000,
        KEYC_MASK_KEY == 0x0000_0fff_ffff_ffff,
        KEYC_MASK_TYPE == 0x0000_0fff_0000_0000,
        KEYC_MASK_MODIFIERS == 0x0000_f000_0000_0000,
{
}

/// The mode bits of a pane, by number, and the erase byte of a pane that has none.
pub proof fn mode_bits_by_number()
    ensures
        MODE_CURSOR == 0x0000_0001,
        MODE_KCURSOR == 0x0000_0004,
        MODE_KKEYPAD == 0x0000_0008,
        MODE_KEYS_EXTENDED == 0x0000_8000,
        MODE_KEYS_EXTENDED_2 == 0x0004_0000,
        MODE_KEYS_KITTY == 0x0020_0000,
        DEFAULT_BACKSPACE == 0x7f,
{
}

} // verus!
