//! Pane mode bits: what the program in a pane has asked of its terminal.
use vstd::prelude::*;

verus! {

/// The cursor is shown.
pub const MODE_CURSOR: u32 = 0x1;

/// Arrow keys are sent in application form.
pub const MODE_KCURSOR: u32 = 0x4;

/// Keypad keys are sent in application form.
pub const MODE_KKEYPAD: u32 = 0x8;

/// Extended keys, first level: only keys without a legacy form.
pub const MODE_KEYS_EXTENDED: u32 = 0x8000;

/// Extended keys, second level: every modified key.
pub const MODE_KEYS_EXTENDED_2: u32 = 0x40000;

/// The kitty keyboard protocol is active.
pub const MODE_KEYS_KITTY: u32 = 0x200000;

} // verus!
