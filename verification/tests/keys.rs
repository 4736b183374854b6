use rmux_server::input_keys::{
    encode_key, encode_key_with_backspace, input_key_extended, input_key_mode1,
    input_key_modified_cursor, input_key_vt10x, is_backtab, is_shift_only_enter, is_tab,
    is_trivial_key, is_unicode_key, legacy_vt10x_spells_key, should_strip_shift,
    standard_vt10x_sequence, tmux_noop_control_key, xterm_modifier_parameter, ExtendedKeyFormat,
};
use rmux_server::key_code::{
    lookup_named_key, parse_named_key, KeyCode, KEYC_BSPACE, KEYC_BTAB, KEYC_CTRL, KEYC_CURSOR,
    KEYC_DC, KEYC_F1, KEYC_F12, KEYC_HOME, KEYC_IMPLIED_META, KEYC_KEYPAD, KEYC_KP_ENTER,
    KEYC_KP_FIVE, KEYC_LEFT, KEYC_META, KEYC_SHIFT, KEYC_UP,
};
use rmux_server::key_decode::{
    decode_extended_key, is_extended_key_terminator, key_from_extended_number,
    key_from_modified_cursor_terminator, ExtendedKeyDecode,
};
use rmux_server::pane_mode::{
    MODE_KCURSOR, MODE_KEYS_EXTENDED, MODE_KEYS_EXTENDED_2, MODE_KEYS_KITTY, MODE_KKEYPAD,
};

const FORMATS: [ExtendedKeyFormat; 2] = [ExtendedKeyFormat::Xterm, ExtendedKeyFormat::CsiU];

const MODES: [u32; 5] = [
    0,
    MODE_KEYS_EXTENDED,
    MODE_KEYS_EXTENDED_2,
    MODE_KEYS_EXTENDED_2 | MODE_KEYS_KITTY,
    MODE_KCURSOR | MODE_KKEYPAD,
];

fn key(character: char) -> KeyCode {
    u64::from(u32::from(character))
}

fn legacy(key: KeyCode) -> Option<Vec<u8>> {
    encode_key(0, ExtendedKeyFormat::Xterm, key)
}

fn matched(input: &[u8]) -> (usize, KeyCode) {
    match decode_extended_key(input, None) {
        ExtendedKeyDecode::Matched { size, key } => (size, key),
        other => panic!("expected a match, got {other:?}"),
    }
}

#[test]
fn formats_are_read_from_their_names() {
    assert_eq!(
        ExtendedKeyFormat::parse(Some("csi-u")),
        ExtendedKeyFormat::CsiU
    );
    assert_eq!(
        ExtendedKeyFormat::parse(Some("xterm")),
        ExtendedKeyFormat::Xterm
    );
    assert_eq!(
        ExtendedKeyFormat::parse(Some("CSI-U")),
        ExtendedKeyFormat::Xterm
    );
    assert_eq!(ExtendedKeyFormat::parse(None), ExtendedKeyFormat::Xterm);
}

#[test]
fn names_stand_for_keys() {
    assert_eq!(lookup_named_key("BSpace"), Some(8589934599));
    assert_eq!(lookup_named_key("F12"), Some(KEYC_F12));
    assert_eq!(lookup_named_key("Home"), Some(KEYC_HOME));
    assert_eq!(lookup_named_key("KPEnter"), Some(KEYC_KP_ENTER));
    assert_eq!(lookup_named_key("home"), None);
    assert_eq!(lookup_named_key(""), None);
    assert_eq!(parse_named_key("Up"), KEYC_UP);
    assert_eq!(KEYC_DC & 0x7f, 0x15);
    assert_eq!(KEYC_F12 & 0x7f, 0x13);
}

#[test]
fn backspace_is_the_erase_byte_in_every_mode() {
    for mode in MODES {
        for format in FORMATS {
            assert_eq!(
                encode_key_with_backspace(mode, format, KEYC_BSPACE, 0x08),
                Some(vec![0x08])
            );
            assert_eq!(
                encode_key_with_backspace(mode, format, KEYC_BSPACE | KEYC_META, 0x08),
                Some(vec![0x1b, 0x08])
            );
            assert_eq!(
                encode_key(mode, format, KEYC_BSPACE | KEYC_META | KEYC_IMPLIED_META),
                Some(vec![0x1b, 0x7f])
            );
            assert_eq!(
                encode_key(mode, format, KEYC_BSPACE | KEYC_CTRL),
                Some(vec![0x7f])
            );
        }
    }
}

#[test]
fn plain_characters_are_sent_as_themselves_in_every_mode() {
    for mode in MODES {
        for format in FORMATS {
            assert_eq!(encode_key(mode, format, key('a')), Some(b"a".to_vec()));
            assert_eq!(encode_key(mode, format, 0x0d), Some(b"\r".to_vec()));
            assert_eq!(encode_key(mode, format, 0x1b), Some(vec![0x1b]));
            assert_eq!(
                encode_key(mode, format, key('\u{e9}')),
                Some("\u{e9}".as_bytes().to_vec())
            );
            assert_eq!(
                encode_key(mode, format, key('\u{20ac}')),
                Some("\u{20ac}".as_bytes().to_vec())
            );
            assert_eq!(
                encode_key(mode, format, key('\u{1f469}')),
                Some("\u{1f469}".as_bytes().to_vec())
            );
            assert_eq!(encode_key(mode, format, 0xd800), None);
        }
    }
}

#[test]
fn control_makes_control_bytes() {
    assert_eq!(legacy(key('a') | KEYC_CTRL), Some(vec![1]));
    assert_eq!(legacy(key('[') | KEYC_CTRL), Some(vec![0x1b]));
    assert_eq!(legacy(key('@') | KEYC_CTRL), Some(vec![0]));
    assert_eq!(legacy(key(' ') | KEYC_CTRL), Some(vec![0]));
    assert_eq!(legacy(key('2') | KEYC_CTRL), Some(vec![0]));
    assert_eq!(legacy(key('6') | KEYC_CTRL), Some(vec![0x1e]));
    assert_eq!(legacy(key('/') | KEYC_CTRL), Some(vec![0x1f]));
    assert_eq!(legacy(key('?') | KEYC_CTRL), Some(vec![0x7f]));
    assert_eq!(legacy(key('!') | KEYC_CTRL), Some(b"1".to_vec()));
    assert_eq!(legacy(key('(') | KEYC_CTRL), Some(b"9".to_vec()));
    assert_eq!(legacy(key(')') | KEYC_CTRL), Some(b"0".to_vec()));
    assert_eq!(legacy(key('+') | KEYC_CTRL), Some(b"=".to_vec()));
    assert_eq!(legacy(key(':') | KEYC_CTRL), Some(b";".to_vec()));
    assert_eq!(legacy(key('"') | KEYC_CTRL), Some(b"'".to_vec()));
    assert_eq!(legacy(key('<') | KEYC_CTRL), Some(b",".to_vec()));
    assert_eq!(legacy(key('>') | KEYC_CTRL), Some(b".".to_vec()));
    assert_eq!(legacy(key('#') | KEYC_CTRL), None);
    assert_eq!(legacy(0x0d | KEYC_CTRL), Some(b"\r".to_vec()));
    assert_eq!(legacy(key('a') | KEYC_CTRL | KEYC_META), Some(vec![0x1b, 1]));
    assert_eq!(
        legacy(key('3') | KEYC_CTRL | KEYC_META),
        Some(vec![0x1b, 0x1b])
    );
}

#[test]
fn control_digits_without_a_byte_send_nothing() {
    for digit in ['3', '4', '5', '7', '8'] {
        assert!(tmux_noop_control_key(key(digit) | KEYC_CTRL, key(digit)));
        assert_eq!(legacy(key(digit) | KEYC_CTRL), Some(Vec::new()));
        assert_eq!(
            encode_key(
                MODE_KEYS_EXTENDED,
                ExtendedKeyFormat::CsiU,
                key(digit) | KEYC_CTRL
            ),
            Some(Vec::new())
        );
    }
    assert!(!tmux_noop_control_key(key('6') | KEYC_CTRL, key('6')));
}

#[test]
fn meta_puts_an_escape_byte_first() {
    assert_eq!(legacy(key('x') | KEYC_META), Some(b"\x1bx".to_vec()));
    assert_eq!(
        legacy(key('\u{e9}') | KEYC_META),
        Some("\u{1b}\u{e9}".as_bytes().to_vec())
    );
    assert_eq!(legacy(KEYC_F1 | KEYC_META), Some(b"\x1b\x1bOP".to_vec()));
}

#[test]
fn named_keys_have_their_sequences() {
    assert_eq!(standard_vt10x_sequence(KEYC_F1), Some(b"\x1bOP".to_vec()));
    assert_eq!(
        standard_vt10x_sequence(KEYC_F12 | KEYC_META),
        Some(b"\x1b[24~".to_vec())
    );
    assert_eq!(standard_vt10x_sequence(KEYC_F12 | KEYC_SHIFT), None);
    assert_eq!(standard_vt10x_sequence(key('a')), None);
    assert_eq!(legacy(KEYC_HOME), Some(b"\x1b[1~".to_vec()));
    assert_eq!(legacy(KEYC_UP), Some(b"\x1b[A".to_vec()));
    assert_eq!(
        encode_key(MODE_KCURSOR, ExtendedKeyFormat::Xterm, KEYC_UP),
        Some(b"\x1bOA".to_vec())
    );
    assert_eq!(legacy(KEYC_KP_FIVE), Some(b"5".to_vec()));
    assert_eq!(
        encode_key(MODE_KKEYPAD, ExtendedKeyFormat::Xterm, KEYC_KP_FIVE),
        Some(b"\x1bOu".to_vec())
    );
    assert_eq!(legacy(KEYC_KP_ENTER), Some(b"\r".to_vec()));
    assert_eq!(
        input_key_vt10x(MODE_KCURSOR, KEYC_HOME | KEYC_CURSOR, 0x7f),
        Some(b"\x1b[1~".to_vec())
    );
    assert_eq!(
        input_key_vt10x(MODE_KKEYPAD, KEYC_HOME | KEYC_KEYPAD, 0x7f),
        Some(b"\x1b[1~".to_vec())
    );
}

#[test]
fn named_keys_keep_their_form_under_extended_modes() {
    for mode in MODES {
        for format in FORMATS {
            assert_eq!(
                encode_key(mode, format, KEYC_DC | KEYC_META),
                Some(b"\x1b\x1b[3~".to_vec())
            );
        }
    }
    assert!(legacy_vt10x_spells_key(KEYC_DC | KEYC_META));
    assert!(legacy_vt10x_spells_key(KEYC_BSPACE | KEYC_CTRL));
    assert!(!legacy_vt10x_spells_key(KEYC_DC | KEYC_SHIFT));
    assert!(!legacy_vt10x_spells_key(key('a') | KEYC_META));
}

#[test]
fn modified_arrows_carry_their_modifiers() {
    assert_eq!(
        legacy(KEYC_UP | KEYC_SHIFT),
        Some(b"\x1b[1;2A".to_vec())
    );
    assert_eq!(
        legacy(KEYC_LEFT | KEYC_CTRL | KEYC_META | KEYC_SHIFT),
        Some(b"\x1b[1;8D".to_vec())
    );
    assert_eq!(
        input_key_modified_cursor(KEYC_HOME | KEYC_CTRL),
        Some(b"\x1b[1;5H".to_vec())
    );
    assert_eq!(input_key_modified_cursor(KEYC_HOME), None);
    assert_eq!(input_key_modified_cursor(KEYC_F1 | KEYC_CTRL), None);
    assert_eq!(xterm_modifier_parameter(key('a')), None);
    assert_eq!(xterm_modifier_parameter(KEYC_SHIFT), Some(2));
    assert_eq!(xterm_modifier_parameter(KEYC_META), Some(3));
    assert_eq!(xterm_modifier_parameter(KEYC_META | KEYC_CTRL), Some(7));
}

#[test]
fn extended_levels_spell_modified_keys() {
    let shifted = key('A') | KEYC_CTRL | KEYC_SHIFT;
    assert_eq!(
        encode_key(MODE_KEYS_EXTENDED_2, ExtendedKeyFormat::Xterm, shifted),
        Some(b"\x1b[27;6;65~".to_vec())
    );
    assert_eq!(
        encode_key(MODE_KEYS_EXTENDED_2, ExtendedKeyFormat::CsiU, shifted),
        Some(b"\x1b[65;6u".to_vec())
    );
    assert_eq!(
        encode_key(
            MODE_KEYS_EXTENDED_2 | MODE_KEYS_KITTY,
            ExtendedKeyFormat::Xterm,
            shifted
        ),
        Some(b"\x1b[65;6u".to_vec())
    );
    assert_eq!(
        encode_key(
            MODE_KEYS_EXTENDED,
            ExtendedKeyFormat::Xterm,
            key('a') | KEYC_CTRL
        ),
        Some(vec![1])
    );
    assert_eq!(
        encode_key(
            MODE_KEYS_EXTENDED,
            ExtendedKeyFormat::Xterm,
            0x0d | KEYC_CTRL
        ),
        Some(b"\x1b[27;5;13~".to_vec())
    );
    assert_eq!(input_key_mode1(key('1') | KEYC_CTRL, 0x7f), None);
    assert_eq!(
        input_key_mode1(key('x') | KEYC_META, 0x7f),
        Some(b"\x1bx".to_vec())
    );
    assert_eq!(input_key_extended(key('a'), ExtendedKeyFormat::CsiU), None);
    assert_eq!(
        legacy(0x0d | KEYC_SHIFT),
        Some(b"\n".to_vec())
    );
}

#[test]
fn backtab_has_one_legacy_form_and_an_extended_one() {
    assert_eq!(legacy(KEYC_BTAB), Some(b"\x1b[Z".to_vec()));
    assert_eq!(legacy(KEYC_BTAB | KEYC_CTRL), Some(b"\x1b[Z".to_vec()));
    let bytes = encode_key(
        MODE_KEYS_EXTENDED_2,
        ExtendedKeyFormat::CsiU,
        KEYC_BTAB | KEYC_CTRL,
    )
    .expect("an extended form");
    assert_eq!(bytes, b"\x1b[9;6u");
    assert_eq!(matched(&bytes), (bytes.len(), KEYC_BTAB | KEYC_CTRL));
}

#[test]
fn extended_spellings_read_back() {
    for format in FORMATS {
        for pressed in [
            key('a') | KEYC_CTRL | KEYC_SHIFT,
            key('\u{1f469}') | KEYC_CTRL,
            0x0d | KEYC_SHIFT,
            KEYC_UP | KEYC_SHIFT | KEYC_CTRL,
            KEYC_HOME | KEYC_CTRL,
        ] {
            let bytes = input_key_extended(pressed, format).expect("an extended form");
            assert_eq!(matched(&bytes), (bytes.len(), pressed));
        }
        let bytes = input_key_extended(key('a') | KEYC_META, format).expect("an extended form");
        assert_eq!(
            matched(&bytes),
            (bytes.len(), key('a') | KEYC_META | KEYC_IMPLIED_META)
        );
        let bytes = input_key_extended(key('A') | KEYC_SHIFT, format).expect("an extended form");
        assert_eq!(matched(&bytes), (bytes.len(), key('A')));
    }
}

#[test]
fn decoding_tells_partial_from_invalid() {
    let spelling = b"\x1b[27;5;13~";
    for cut in 1..spelling.len() {
        assert_eq!(
            decode_extended_key(&spelling[..cut], None),
            ExtendedKeyDecode::Partial
        );
    }
    assert_eq!(matched(b"\x1b[27;5;13~rest"), (10, 0x0d | KEYC_CTRL));
    for refused in [
        &b""[..],
        b"a",
        b"\x1bO",
        b"\x1b[x",
        b"\x1b[~",
        b"\x1b[26;5;13~",
        b"\x1b[27;5~",
        b"\x1b[27;5;13;1~",
        b"\x1b[27;;13~",
        b"\x1b[27;65536;13~",
        b"\x1b[27;5;4294967296~",
        b"\x1b[27;5;55296~",
        b"\x1b[97u",
        b"\x1b[97;5;1u",
        b"\x1b[;5u",
        b"\x1b[A",
        b"\x1b[1;5;2A",
        b"\x1b[65536;5A",
        b"\x1b[1;A",
    ] {
        assert_eq!(
            decode_extended_key(refused, None),
            ExtendedKeyDecode::Invalid,
            "{refused:?}"
        );
    }
    let mut long = b"\x1b[".to_vec();
    long.resize(64, b'1');
    assert_eq!(decode_extended_key(&long, None), ExtendedKeyDecode::Partial);
    long.push(b'u');
    assert_eq!(decode_extended_key(&long, None), ExtendedKeyDecode::Invalid);
}

#[test]
fn a_refused_input_stays_refused() {
    for refused in [&b"x"[..], b"\x1bO", b"\x1b[x", b"\x1b[26;5;13~"] {
        for tail in [&b""[..], b"~", b"27;5;13~"] {
            assert_eq!(
                decode_extended_key(&[refused, tail].concat(), None),
                ExtendedKeyDecode::Invalid
            );
        }
    }
}

#[test]
fn modified_named_keys_are_spelled_out_at_the_second_level() {
    assert_eq!(
        encode_key(
            MODE_KEYS_EXTENDED_2,
            ExtendedKeyFormat::Xterm,
            KEYC_DC | KEYC_SHIFT
        ),
        Some(b"\x1b[27;2;8589934613~".to_vec())
    );
    assert_eq!(
        encode_key(
            MODE_KEYS_EXTENDED_2,
            ExtendedKeyFormat::CsiU,
            KEYC_F12 | KEYC_CTRL
        ),
        Some(b"\x1b[8589934611;5u".to_vec())
    );
    assert_eq!(legacy(KEYC_DC | KEYC_SHIFT), Some(vec![0x15]));
    assert_eq!(legacy(KEYC_F12 | KEYC_CTRL), None);
}

#[test]
fn decoding_reads_modifier_bits() {
    assert_eq!(matched(b"\x1b[97;0u").1, key('a'));
    assert_eq!(matched(b"\x1b[97;1u").1, key('a'));
    assert_eq!(
        matched(b"\x1b[97;9u").1,
        key('a') | KEYC_META | KEYC_IMPLIED_META
    );
    assert_eq!(matched(b"\x1b[97;5u").1, key('a') | KEYC_CTRL);
    assert_eq!(matched(b"\x1b[7;5A").1, KEYC_UP | KEYC_CTRL);
    assert_eq!(
        decode_extended_key(b"\x1b[127;3u", Some(0x7f)),
        ExtendedKeyDecode::Matched {
            size: 8,
            key: KEYC_BSPACE | KEYC_META | KEYC_IMPLIED_META
        }
    );
}

#[test]
fn decoding_helpers_name_keys() {
    assert_eq!(key_from_extended_number(8, Some(8)), Some(KEYC_BSPACE));
    assert_eq!(key_from_extended_number(8, None), Some(8));
    assert_eq!(key_from_extended_number(0x11_0000, None), None);
    assert_eq!(key_from_modified_cursor_terminator(b'D'), Some(KEYC_LEFT));
    assert_eq!(key_from_modified_cursor_terminator(b'E'), None);
    assert!(is_extended_key_terminator(b'~'));
    assert!(!is_extended_key_terminator(b'E'));
}

#[test]
fn key_tests_look_at_the_right_bits() {
    assert!(is_unicode_key(key('\u{e9}') | KEYC_CTRL));
    assert!(!is_unicode_key(key('e')));
    assert!(!is_unicode_key(KEYC_F1));
    assert!(is_trivial_key(key('a')));
    assert!(is_trivial_key(KEYC_BSPACE));
    assert!(!is_trivial_key(key('a') | KEYC_SHIFT));
    assert!(!is_trivial_key(0x0a));
    assert!(is_backtab(KEYC_BTAB | KEYC_META));
    assert!(!is_backtab(0x09));
    assert!(is_tab(0x09 | KEYC_CTRL));
    assert!(should_strip_shift(key('A') | KEYC_SHIFT));
    assert!(!should_strip_shift(key('A') | KEYC_SHIFT | KEYC_CTRL));
    assert!(!should_strip_shift(key(' ') | KEYC_SHIFT));
    assert!(is_shift_only_enter(0x0d | KEYC_SHIFT));
    assert!(!is_shift_only_enter(0x0d));
}
