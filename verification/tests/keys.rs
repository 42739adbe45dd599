//! Key encoding, and what keys and links are allowed to do.
use terminal::input::{hyperlink_is_allowed, remove_last_query_char, schedule_pty_wake};
use terminal::keys::{
    ctrl_code, encode_key, encode_protocol_key, Key, ModifiersState, NamedKey, KITTY_ALL_KEYS,
    KITTY_ALTERNATE, KITTY_ASSOC_TEXT, KITTY_DISAMBIGUATE, KITTY_EVENT_TYPES,
};

fn none() -> ModifiersState {
    ModifiersState::default()
}

#[test]
fn test_search_backspace_removes_one_unicode_scalar() {
    let mut query = "café界".to_string();
    remove_last_query_char(&mut query);
    assert_eq!(query, "café");
    remove_last_query_char(&mut query);
    assert_eq!(query, "caf");
}

#[test]
fn test_pty_wake_scheduler_coalesces_until_cleared() {
    let mut pending = false;
    let mut sends = 0;
    assert!(schedule_pty_wake(&mut pending, || {
        sends += 1;
        true
    }));
    assert!(!schedule_pty_wake(&mut pending, || {
        sends += 1;
        true
    }));
    assert_eq!(sends, 1);
    pending = false;
    assert!(schedule_pty_wake(&mut pending, || true));
}

#[test]
fn test_pty_wake_scheduler_clears_gate_when_send_fails() {
    let mut pending = false;
    assert!(!schedule_pty_wake(&mut pending, || false));
    assert!(!pending);
}

#[test]
fn test_hyperlink_policy_default_schemes() {
    let schemes: Vec<String> = vec!["http".into(), "https".into()];
    assert!(hyperlink_is_allowed("https://example.com/path", &schemes));
    assert!(hyperlink_is_allowed("http://example.com", &schemes));
    assert!(!hyperlink_is_allowed("file:///etc/passwd", &schemes));
    assert!(!hyperlink_is_allowed("javascript:alert(1)", &schemes));
    assert!(!hyperlink_is_allowed(
        "https://example.com/\nnext",
        &schemes
    ));
    assert!(!hyperlink_is_allowed("example.com", &schemes)); // no scheme
}

#[test]
fn test_hyperlink_policy_custom_schemes() {
    let schemes: Vec<String> = vec!["gemini".into(), "mailto".into()];
    assert!(hyperlink_is_allowed(
        "gemini://geminiprotocol.net",
        &schemes
    ));
    assert!(hyperlink_is_allowed("mailto://x@y.com", &schemes));
    assert!(!hyperlink_is_allowed("https://example.com", &schemes));
}

#[test]
fn test_protocol_key_encoding() {
    let modifiers = ModifiersState { control: true, ..none() };
    assert_eq!(
        encode_protocol_key(
            &Key::Character("x".into()),
            &modifiers,
            None,
            KITTY_DISAMBIGUATE,
            1,
            0,
        ),
        b"\x1b[120;5u"
    );
    assert_eq!(
        encode_protocol_key(&Key::Character("x".into()), &modifiers, None, 0, 1, 1),
        b"\x1b[27;5;120~"
    );
}

#[test]
fn test_kitty_escape_disambiguation() {
    assert_eq!(
        encode_protocol_key(
            &Key::Named(NamedKey::Escape),
            &none(),
            None,
            KITTY_DISAMBIGUATE,
            1,
            0,
        ),
        b"\x1b[27u"
    );
    // Legacy: raw ESC byte.
    assert_eq!(
        encode_protocol_key(&Key::Named(NamedKey::Escape), &none(), None, 0, 1, 0),
        b"\x1b"
    );
}

#[test]
fn test_kitty_ctrl_shift_alt_disambiguation() {
    let ctrl = ModifiersState { control: true, ..none() };
    // ctrl+c → CSI 99;5 u, not the SIGINT byte 0x03.
    assert_eq!(
        encode_protocol_key(
            &Key::Character("c".into()),
            &ctrl,
            None,
            KITTY_DISAMBIGUATE,
            1,
            0,
        ),
        b"\x1b[99;5u"
    );
    // Unshifted codepoint reported: shift+a → code 97.
    let shift = ModifiersState { shift: true, ..none() };
    assert_eq!(
        encode_protocol_key(
            &Key::Character("A".into()),
            &shift,
            Some("A"),
            KITTY_DISAMBIGUATE,
            1,
            0,
        ),
        b"\x1b[97;2u"
    );
    // alt+a → CSI 97;3 u.
    let alt = ModifiersState { alt: true, ..none() };
    assert_eq!(
        encode_protocol_key(
            &Key::Character("a".into()),
            &alt,
            None,
            KITTY_DISAMBIGUATE,
            1,
            0,
        ),
        b"\x1b[97;3u"
    );
}

#[test]
fn test_kitty_event_types() {
    let flags = KITTY_DISAMBIGUATE | KITTY_EVENT_TYPES;
    let ctrl = ModifiersState { control: true, ..none() };
    assert_eq!(
        encode_protocol_key(&Key::Character("x".into()), &ctrl, None, flags, 2, 0),
        b"\x1b[120;5:2u"
    );
    assert_eq!(
        encode_protocol_key(&Key::Character("x".into()), &ctrl, None, flags, 3, 0),
        b"\x1b[120;5:3u"
    );
}

#[test]
fn test_kitty_all_keys_mode() {
    assert_eq!(
        encode_protocol_key(
            &Key::Character("a".into()),
            &none(),
            Some("a"),
            KITTY_ALL_KEYS,
            1,
            0,
        ),
        b"\x1b[97u"
    );
    assert_eq!(
        encode_protocol_key(
            &Key::Named(NamedKey::Enter),
            &none(),
            None,
            KITTY_ALL_KEYS,
            1,
            0,
        ),
        b"\x1b[13u"
    );
    assert_eq!(
        encode_protocol_key(
            &Key::Named(NamedKey::Tab),
            &none(),
            None,
            KITTY_ALL_KEYS,
            1,
            0,
        ),
        b"\x1b[9u"
    );
    assert_eq!(
        encode_protocol_key(
            &Key::Named(NamedKey::Backspace),
            &none(),
            None,
            KITTY_ALL_KEYS,
            1,
            0,
        ),
        b"\x1b[127u"
    );
}

#[test]
fn test_kitty_associated_text() {
    let flags = KITTY_ALL_KEYS | KITTY_ASSOC_TEXT;
    let shift = ModifiersState { shift: true, ..none() };
    assert_eq!(
        encode_protocol_key(&Key::Character("A".into()), &shift, Some("A"), flags, 1, 0,),
        b"\x1b[97;2;65u"
    );
}

#[test]
fn test_kitty_alternate_keys() {
    let flags = KITTY_DISAMBIGUATE | KITTY_ALTERNATE;
    let shift = ModifiersState { shift: true, ..none() };
    assert_eq!(
        encode_protocol_key(&Key::Character("A".into()), &shift, Some("A"), flags, 1, 0,),
        b"\x1b[97:65;2u"
    );
}

#[test]
fn test_kitty_functional_keys() {
    let flags = KITTY_DISAMBIGUATE;
    assert_eq!(
        encode_protocol_key(&Key::Named(NamedKey::ArrowUp), &none(), None, flags, 1, 0),
        b"\x1b[A"
    );
    let ctrl = ModifiersState { control: true, ..none() };
    assert_eq!(
        encode_protocol_key(&Key::Named(NamedKey::ArrowUp), &ctrl, None, flags, 1, 0),
        b"\x1b[1;5A"
    );
    assert_eq!(
        encode_protocol_key(&Key::Named(NamedKey::F1), &none(), None, flags, 1, 0),
        b"\x1b[P"
    );
    assert_eq!(
        encode_protocol_key(&Key::Named(NamedKey::PageUp), &none(), None, flags, 1, 0),
        b"\x1b[5~"
    );
    let ev_flags = KITTY_DISAMBIGUATE | KITTY_EVENT_TYPES;
    assert_eq!(
        encode_protocol_key(&Key::Named(NamedKey::ArrowUp), &ctrl, None, ev_flags, 3, 0),
        b"\x1b[1;5:3A"
    );
}

#[test]
fn test_kitty_legacy_unchanged_when_disabled() {
    // With no kitty flags, behaviour is identical to the legacy encoder.
    let ctrl = ModifiersState { control: true, ..none() };
    assert_eq!(
        encode_protocol_key(&Key::Character("c".into()), &ctrl, None, 0, 1, 0),
        b"c"
    );
    let alt = ModifiersState { alt: true, ..none() };
    assert_eq!(
        encode_protocol_key(&Key::Character("a".into()), &alt, None, 0, 1, 0),
        b"\x1ba"
    );
}

#[test]
fn test_encode_enter() {
    let result = encode_key(&Key::Named(NamedKey::Enter), &none());
    assert_eq!(result, b"\r");
}

#[test]
fn test_encode_backspace() {
    let result = encode_key(&Key::Named(NamedKey::Backspace), &none());
    assert_eq!(result, b"\x7f");
}

#[test]
fn test_encode_tab() {
    let result = encode_key(&Key::Named(NamedKey::Tab), &none());
    assert_eq!(result, b"\t");
}

#[test]
fn test_encode_escape() {
    let result = encode_key(&Key::Named(NamedKey::Escape), &none());
    assert_eq!(result, b"\x1b");
}

#[test]
fn test_encode_space() {
    let result = encode_key(&Key::Named(NamedKey::Space), &none());
    assert_eq!(result, b" ");
}

#[test]
fn test_encode_arrows() {
    assert_eq!(
        encode_key(&Key::Named(NamedKey::ArrowUp), &none()),
        b"\x1b[A"
    );
    assert_eq!(
        encode_key(&Key::Named(NamedKey::ArrowDown), &none()),
        b"\x1b[B"
    );
    assert_eq!(
        encode_key(&Key::Named(NamedKey::ArrowRight), &none()),
        b"\x1b[C"
    );
    assert_eq!(
        encode_key(&Key::Named(NamedKey::ArrowLeft), &none()),
        b"\x1b[D"
    );
}

#[test]
fn test_encode_home_end() {
    assert_eq!(encode_key(&Key::Named(NamedKey::Home), &none()), b"\x1b[H");
    assert_eq!(encode_key(&Key::Named(NamedKey::End), &none()), b"\x1b[F");
}

#[test]
fn test_encode_page_up_down() {
    assert_eq!(
        encode_key(&Key::Named(NamedKey::PageUp), &none()),
        b"\x1b[5~"
    );
    assert_eq!(
        encode_key(&Key::Named(NamedKey::PageDown), &none()),
        b"\x1b[6~"
    );
}

#[test]
fn test_encode_delete_insert() {
    assert_eq!(
        encode_key(&Key::Named(NamedKey::Delete), &none()),
        b"\x1b[3~"
    );
    assert_eq!(
        encode_key(&Key::Named(NamedKey::Insert), &none()),
        b"\x1b[2~"
    );
}

#[test]
fn test_encode_function_keys() {
    assert_eq!(encode_key(&Key::Named(NamedKey::F1), &none()), b"\x1bOP");
    assert_eq!(encode_key(&Key::Named(NamedKey::F2), &none()), b"\x1bOQ");
    assert_eq!(encode_key(&Key::Named(NamedKey::F3), &none()), b"\x1bOR");
    assert_eq!(encode_key(&Key::Named(NamedKey::F4), &none()), b"\x1bOS");
    assert_eq!(encode_key(&Key::Named(NamedKey::F5), &none()), b"\x1b[15~");
    assert_eq!(encode_key(&Key::Named(NamedKey::F6), &none()), b"\x1b[17~");
    assert_eq!(encode_key(&Key::Named(NamedKey::F7), &none()), b"\x1b[18~");
    assert_eq!(encode_key(&Key::Named(NamedKey::F8), &none()), b"\x1b[19~");
    assert_eq!(encode_key(&Key::Named(NamedKey::F9), &none()), b"\x1b[20~");
    assert_eq!(encode_key(&Key::Named(NamedKey::F10), &none()), b"\x1b[21~");
    assert_eq!(encode_key(&Key::Named(NamedKey::F11), &none()), b"\x1b[23~");
    assert_eq!(encode_key(&Key::Named(NamedKey::F12), &none()), b"\x1b[24~");
}

#[test]
fn test_encode_character() {
    let result = encode_key(&Key::Character("a".into()), &none());
    assert_eq!(result, b"a");
}

#[test]
fn test_encode_character_capital() {
    let result = encode_key(&Key::Character("A".into()), &none());
    assert_eq!(result, b"A");
}

// -- Ctrl+letter → C0 control codes (T1-1) --

#[test]
fn test_ctrl_code_letters() {
    assert_eq!(ctrl_code(b'a'), Some(0x01)); // Ctrl+A
    assert_eq!(ctrl_code(b'c'), Some(0x03)); // Ctrl+C = SIGINT
    assert_eq!(ctrl_code(b'd'), Some(0x04)); // Ctrl+D = EOF
    assert_eq!(ctrl_code(b'l'), Some(0x0c)); // Ctrl+L
    assert_eq!(ctrl_code(b'z'), Some(0x1a)); // Ctrl+Z = SIGTSTP
}

#[test]
fn test_ctrl_code_symbols() {
    assert_eq!(ctrl_code(b'@'), Some(0x00)); // Ctrl+@ = NUL
    assert_eq!(ctrl_code(b'['), Some(0x1b)); // Ctrl+[ = ESC
    assert_eq!(ctrl_code(b'\\'), Some(0x1c)); // Ctrl+\ = FS
    assert_eq!(ctrl_code(b']'), Some(0x1d)); // Ctrl+] = GS
    assert_eq!(ctrl_code(b'^'), Some(0x1e)); // Ctrl+^ = RS
    assert_eq!(ctrl_code(b'_'), Some(0x1f)); // Ctrl+_ = US
}

#[test]
fn test_ctrl_code_none_for_unmapped() {
    assert_eq!(ctrl_code(b'A'), None); // uppercase not Ctrl-combined here
    assert_eq!(ctrl_code(b'1'), None);
    assert_eq!(ctrl_code(b' '), None);
}

#[test]
fn test_encode_unknown_named_returns_empty() {
    // Some named keys aren't mapped yet
    let result = encode_key(&Key::Named(NamedKey::Unmapped), &none());
    assert!(result.is_empty());
}

#[test]
fn test_encode_unmapped_returns_empty() {
    // Dead key / unmapped key type returns empty
    let result = encode_key(&Key::Character("".into()), &none());
    assert!(result.is_empty());
}
