//! Key codes: how a key press, its modifiers and its flags are packed in one word.
//!
//! The low 44 bits name the key. Within them the low 32 bits are the payload and
//! the bits above are the key type: zero for a character, whose payload is its
//! code point, and non-zero for a named key, whose payload is a small number.
//! Modifiers and flags lie above the key.
use crate::text::same_text;
use vstd::prelude::*;

verus! {

/// A packed key.
pub type KeyCode = u64;

/// The bits that name the key: type and payload.
pub const KEYC_MASK_KEY: KeyCode = 0x0000_0fff_ffff_ffff;

/// The bits that hold the key type.
pub const KEYC_MASK_TYPE: KeyCode = 0x0000_0fff_0000_0000;

/// The bits that hold the modifiers.
pub const KEYC_MASK_MODIFIERS: KeyCode = 0x0000_f000_0000_0000;

/// The Meta (Alt) modifier.
pub const KEYC_META: KeyCode = 0x0000_1000_0000_0000;

/// The Control modifier.
pub const KEYC_CTRL: KeyCode = 0x0000_2000_0000_0000;

/// The Shift modifier.
pub const KEYC_SHIFT: KeyCode = 0x0000_4000_0000_0000;

/// The key belongs to the numeric keypad.
pub const KEYC_KEYPAD: KeyCode = 0x0002_0000_0000_0000;

/// The key is an arrow key.
pub const KEYC_CURSOR: KeyCode = 0x0004_0000_0000_0000;

/// Meta was part of the sequence that the key was decoded from.
pub const KEYC_IMPLIED_META: KeyCode = 0x0008_0000_0000_0000;

/// The key named `BSpace`.
pub const KEYC_BSPACE: KeyCode = 0x0000_0002_0000_0007;

/// The key named `F1`.
pub const KEYC_F1: KeyCode = 0x0000_0002_0000_0008;

/// The key named `F2`.
pub const KEYC_F2: KeyCode = 0x0000_0002_0000_0009;

/// The key named `F3`.
pub const KEYC_F3: KeyCode = 0x0000_0002_0000_000a;

/// The key named `F4`.
pub const KEYC_F4: KeyCode = 0x0000_0002_0000_000b;

/// The key named `F5`.
pub const KEYC_F5: KeyCode = 0x0000_0002_0000_000c;

/// The key named `F6`.
pub const KEYC_F6: KeyCode = 0x0000_0002_0000_000d;

/// The key named `F7`.
pub const KEYC_F7: KeyCode = 0x0000_0002_0000_000e;

/// The key named `F8`.
pub const KEYC_F8: KeyCode = 0x0000_0002_0000_000f;

/// The key named `F9`.
pub const KEYC_F9: KeyCode = 0x0000_0002_0000_0010;

/// The key named `F10`.
pub const KEYC_F10: KeyCode = 0x0000_0002_0000_0011;

/// The key named `F11`.
pub const KEYC_F11: KeyCode = 0x0000_0002_0000_0012;

/// The key named `F12`.
pub const KEYC_F12: KeyCode = 0x0000_0002_0000_0013;

/// The key named `IC`.
pub const KEYC_IC: KeyCode = 0x0000_0002_0000_0014;

/// The key named `DC`.
pub const KEYC_DC: KeyCode = 0x0000_0002_0000_0015;

/// The key named `Home`.
pub const KEYC_HOME: KeyCode = 0x0000_0002_0000_0016;

/// The key named `End`.
pub const KEYC_END: KeyCode = 0x0000_0002_0000_0017;

/// The key named `PageDown`.
pub const KEYC_NPAGE: KeyCode = 0x0000_0002_0000_0018;

/// The key named `PageUp`.
pub const KEYC_PPAGE: KeyCode = 0x0000_0002_0000_0019;

/// The key named `BTab`.
pub const KEYC_BTAB: KeyCode = 0x0000_0002_0000_001a;

/// The key named `Up`.
pub const KEYC_UP: KeyCode = 0x0004_0002_0000_001b;

/// The key named `Down`.
pub const KEYC_DOWN: KeyCode = 0x0004_0002_0000_001c;

/// The key named `Left`.
pub const KEYC_LEFT: KeyCode = 0x0004_0002_0000_001d;

/// The key named `Right`.
pub const KEYC_RIGHT: KeyCode = 0x0004_0002_0000_001e;

/// The key named `KP/`.
pub const KEYC_KP_SLASH: KeyCode = 0x0002_0002_0000_001f;

/// The key named `KP*`.
pub const KEYC_KP_STAR: KeyCode = 0x0002_0002_0000_0020;

/// The key named `KP-`.
pub const KEYC_KP_MINUS: KeyCode = 0x0002_0002_0000_0021;

/// The key named `KP7`.
pub const KEYC_KP_SEVEN: KeyCode = 0x0002_0002_0000_0022;

/// The key named `KP8`.
pub const KEYC_KP_EIGHT: KeyCode = 0x0002_0002_0000_0023;

/// The key named `KP9`.
pub const KEYC_KP_NINE: KeyCode = 0x0002_0002_0000_0024;

/// The key named `KP+`.
pub const KEYC_KP_PLUS: KeyCode = 0x0002_0002_0000_0025;

/// The key named `KP4`.
pub const KEYC_KP_FOUR: KeyCode = 0x0002_0002_0000_0026;

/// The key named `KP5`.
pub const KEYC_KP_FIVE: KeyCode = 0x0002_0002_0000_0027;

/// The key named `KP6`.
pub const KEYC_KP_SIX: KeyCode = 0x0002_0002_0000_0028;

/// The key named `KP1`.
pub const KEYC_KP_ONE: KeyCode = 0x0002_0002_0000_0029;

/// The key named `KP2`.
pub const KEYC_KP_TWO: KeyCode = 0x0002_0002_0000_002a;

/// The key named `KP3`.
pub const KEYC_KP_THREE: KeyCode = 0x0002_0002_0000_002b;

/// The key named `KPEnter`.
pub const KEYC_KP_ENTER: KeyCode = 0x0002_0002_0000_002c;

/// The key named `KP0`.
pub const KEYC_KP_ZERO: KeyCode = 0x0002_0002_0000_002d;

/// The key named `KP.`.
pub const KEYC_KP_PERIOD: KeyCode = 0x0002_0002_0000_002e;

/// The key that `name` stands for, for the keys that have a name and no character.
pub open spec fn named_key(name: Seq<char>) -> Option<KeyCode> {
    if name == "BSpace"@ {
        Some(KEYC_BSPACE)
    } else if name == "F1"@ {
        Some(KEYC_F1)
    } else if name == "F2"@ {
        Some(KEYC_F2)
    } else if name == "F3"@ {
        Some(KEYC_F3)
    } else if name == "F4"@ {
        Some(KEYC_F4)
    } else if name == "F5"@ {
        Some(KEYC_F5)
    } else if name == "F6"@ {
        Some(KEYC_F6)
    } else if name == "F7"@ {
        Some(KEYC_F7)
    } else if name == "F8"@ {
        Some(KEYC_F8)
    } else if name == "F9"@ {
        Some(KEYC_F9)
    } else if name == "F10"@ {
        Some(KEYC_F10)
    } else if name == "F11"@ {
        Some(KEYC_F11)
    } else if name == "F12"@ {
        Some(KEYC_F12)
    } else if name == "IC"@ {
        Some(KEYC_IC)
    } else if name == "DC"@ {
        Some(KEYC_DC)
    } else if name == "Home"@ {
        Some(KEYC_HOME)
    } else if name == "End"@ {
        Some(KEYC_END)
    } else if name == "PageDown"@ {
        Some(KEYC_NPAGE)
    } else if name == "PageUp"@ {
        Some(KEYC_PPAGE)
    } else if name == "BTab"@ {
        Some(KEYC_BTAB)
    } else if name == "Up"@ {
        Some(KEYC_UP)
    } else if name == "Down"@ {
        Some(KEYC_DOWN)
    } else if name == "Left"@ {
        Some(KEYC_LEFT)
    } else if name == "Right"@ {
        Some(KEYC_RIGHT)
    } else if name == "KP/"@ {
        Some(KEYC_KP_SLASH)
    } else if name == "KP*"@ {
        Some(KEYC_KP_STAR)
    } else if name == "KP-"@ {
        Some(KEYC_KP_MINUS)
    } else if name == "KP7"@ {
        Some(KEYC_KP_SEVEN)
    } else if name == "KP8"@ {
        Some(KEYC_KP_EIGHT)
    } else if name == "KP9"@ {
        Some(KEYC_KP_NINE)
    } else if name == "KP+"@ {
        Some(KEYC_KP_PLUS)
    } else if name == "KP4"@ {
        Some(KEYC_KP_FOUR)
    } else if name == "KP5"@ {
        Some(KEYC_KP_FIVE)
    } else if name == "KP6"@ {
        Some(KEYC_KP_SIX)
    } else if name == "KP1"@ {
        Some(KEYC_KP_ONE)
    } else if name == "KP2"@ {
        Some(KEYC_KP_TWO)
    } else if name == "KP3"@ {
        Some(KEYC_KP_THREE)
    } else if name == "KPEnter"@ {
        Some(KEYC_KP_ENTER)
    } else if name == "KP0"@ {
        Some(KEYC_KP_ZERO)
    } else if name == "KP."@ {
        Some(KEYC_KP_PERIOD)
    } else {
        None
    }
}

/// Looks up a named key.
pub fn lookup_named_key(name: &str) -> (key: Option<KeyCode>)
    ensures
        key == named_key(name@),
{
    if same_text(name, "BSpace") {
        Some(KEYC_BSPACE)
    } else if same_text(name, "F1") {
        Some(KEYC_F1)
    } else if same_text(name, "F2") {
        Some(KEYC_F2)
    } else if same_text(name, "F3") {
        Some(KEYC_F3)
    } else if same_text(name, "F4") {
        Some(KEYC_F4)
    } else if same_text(name, "F5") {
        Some(KEYC_F5)
    } else if same_text(name, "F6") {
        Some(KEYC_F6)
    } else if same_text(name, "F7") {
        Some(KEYC_F7)
    } else if same_text(name, "F8") {
        Some(KEYC_F8)
    } else if same_text(name, "F9") {
        Some(KEYC_F9)
    } else if same_text(name, "F10") {
        Some(KEYC_F10)
    } else if same_text(name, "F11") {
        Some(KEYC_F11)
    } else if same_text(name, "F12") {
        Some(KEYC_F12)
    } else if same_text(name, "IC") {
        Some(KEYC_IC)
    } else if same_text(name, "DC") {
        Some(KEYC_DC)
    } else if same_text(name, "Home") {
        Some(KEYC_HOME)
    } else if same_text(name, "End") {
        Some(KEYC_END)
    } else if same_text(name, "PageDown") {
        Some(KEYC_NPAGE)
    } else if same_text(name, "PageUp") {
        Some(KEYC_PPAGE)
    } else if same_text(name, "BTab") {
        Some(KEYC_BTAB)
    } else if same_text(name, "Up") {
        Some(KEYC_UP)
    } else if same_text(name, "Down") {
        Some(KEYC_DOWN)
    } else if same_text(name, "Left") {
        Some(KEYC_LEFT)
    } else if same_text(name, "Right") {
        Some(KEYC_RIGHT)
    } else if same_text(name, "KP/") {
        Some(KEYC_KP_SLASH)
    } else if same_text(name, "KP*") {
        Some(KEYC_KP_STAR)
    } else if same_text(name, "KP-") {
        Some(KEYC_KP_MINUS)
    } else if same_text(name, "KP7") {
        Some(KEYC_KP_SEVEN)
    } else if same_text(name, "KP8") {
        Some(KEYC_KP_EIGHT)
    } else if same_text(name, "KP9") {
        Some(KEYC_KP_NINE)
    } else if same_text(name, "KP+") {
        Some(KEYC_KP_PLUS)
    } else if same_text(name, "KP4") {
        Some(KEYC_KP_FOUR)
    } else if same_text(name, "KP5") {
        Some(KEYC_KP_FIVE)
    } else if same_text(name, "KP6") {
        Some(KEYC_KP_SIX)
    } else if same_text(name, "KP1") {
        Some(KEYC_KP_ONE)
    } else if same_text(name, "KP2") {
        Some(KEYC_KP_TWO)
    } else if same_text(name, "KP3") {
        Some(KEYC_KP_THREE)
    } else if same_text(name, "KPEnter") {
        Some(KEYC_KP_ENTER)
    } else if same_text(name, "KP0") {
        Some(KEYC_KP_ZERO)
    } else if same_text(name, "KP.") {
        Some(KEYC_KP_PERIOD)
    } else {
        None
    }
}

/// Looks up a key that is known to have a name.
pub fn parse_named_key(name: &str) -> (key: KeyCode)
    requires
        named_key(name@) is Some,
    ensures
        Some(key) == named_key(name@),
{
    match lookup_named_key(name) {
        Some(key) => key,
        None => 0,
    }
}

} // verus!
