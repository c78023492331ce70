use ratty::keyboard::{
    current_modifiers, encode_modified_special_key, printable_text, translate_key, KeyEvent,
    KeyTranslationContext, TerminalKeyboard,
};
use ratty::keys::{
    ctrl_keycode_byte, is_modifier_key, navigation_key_code, parse_key_code, Key, KeyCode,
    NavigationKey,
};

fn translate_navigation_key(
    key_code: KeyCode,
    logical_key: Key,
    ctrl_pressed: bool,
    alt_pressed: bool,
    shift_pressed: bool,
    application_cursor: bool,
) -> Vec<u8> {
    translate_key(
        key_code,
        KeyTranslationContext {
            logical_key: &logical_key,
            text: None,
            ctrl_pressed,
            alt_pressed,
            alt_gr_pressed: false,
            shift_pressed,
            application_cursor,
            kitty_keyboard_flags: 0,
            modify_other_keys: None,
        },
    )
}

fn press(key_code: KeyCode, logical_key: Key, text: Option<&str>) -> KeyEvent {
    KeyEvent {
        key_code,
        logical_key,
        text: text.map(|text| text.to_owned()),
        pressed: true,
        repeat: false,
    }
}

fn release(key_code: KeyCode) -> KeyEvent {
    KeyEvent { key_code, logical_key: Key::Other, text: None, pressed: false, repeat: false }
}

#[test]
fn encodes_alt_arrow_keys_as_modified_csi_sequences() {
    assert_eq!(
        translate_navigation_key(KeyCode::ArrowUp, Key::ArrowUp, false, true, false, false),
        b"\x1b[1;3A"
    );
    assert_eq!(
        translate_navigation_key(
            KeyCode::ArrowDown,
            Key::ArrowDown,
            false,
            true,
            false,
            false
        ),
        b"\x1b[1;3B"
    );
}

#[test]
fn modified_navigation_keys_do_not_use_application_cursor_mode() {
    assert_eq!(
        translate_navigation_key(KeyCode::ArrowUp, Key::ArrowUp, false, true, false, true),
        b"\x1b[1;3A"
    );
    assert_eq!(
        translate_navigation_key(KeyCode::ArrowUp, Key::ArrowUp, false, false, false, true),
        b"\x1bOA"
    );
}

#[test]
fn encodes_modified_page_keys_with_tilde_sequences() {
    assert_eq!(
        translate_navigation_key(KeyCode::PageUp, Key::PageUp, false, true, false, false),
        b"\x1b[5;3~"
    );
    assert_eq!(
        translate_navigation_key(KeyCode::PageDown, Key::PageDown, false, true, false, false),
        b"\x1b[6;3~"
    );
}

#[test]
fn encodes_plain_navigation_keys() {
    let plain = |key: NavigationKey| key.encode(false, false, false, false);
    assert_eq!(plain(NavigationKey::ArrowUp), b"\x1b[A");
    assert_eq!(plain(NavigationKey::ArrowDown), b"\x1b[B");
    assert_eq!(plain(NavigationKey::ArrowRight), b"\x1b[C");
    assert_eq!(plain(NavigationKey::ArrowLeft), b"\x1b[D");
    assert_eq!(plain(NavigationKey::Home), b"\x1b[1~");
    assert_eq!(plain(NavigationKey::End), b"\x1b[4~");
    assert_eq!(plain(NavigationKey::PageUp), b"\x1b[5~");
    assert_eq!(plain(NavigationKey::PageDown), b"\x1b[6~");
    assert_eq!(plain(NavigationKey::Insert), b"\x1b[2~");
    assert_eq!(plain(NavigationKey::Delete), b"\x1b[3~");
}

#[test]
fn encodes_application_cursor_keys() {
    let application = |key: NavigationKey| key.encode(false, false, false, true);
    assert_eq!(application(NavigationKey::Home), b"\x1bOH");
    assert_eq!(application(NavigationKey::End), b"\x1bOF");
    assert_eq!(application(NavigationKey::ArrowLeft), b"\x1bOD");
    assert_eq!(application(NavigationKey::PageUp), b"\x1b[5~");
    assert_eq!(application(NavigationKey::Delete), b"\x1b[3~");
}

#[test]
fn navigation_modifier_codes_add_up() {
    assert_eq!(NavigationKey::End.encode(true, true, true, false), b"\x1b[1;8F");
    assert_eq!(NavigationKey::Home.encode(true, false, false, true), b"\x1b[1;5H");
    assert_eq!(NavigationKey::Insert.encode(false, false, true, false), b"\x1b[2;2~");
    assert_eq!(NavigationKey::Delete.encode(true, false, true, false), b"\x1b[3;6~");
}

#[test]
fn control_letters_send_control_bytes() {
    let key = Key::Character("c".to_owned());
    assert_eq!(
        translate_navigation_key(KeyCode::KeyC, key, true, false, false, false),
        vec![0x03]
    );
    let key = Key::Character("z".to_owned());
    assert_eq!(
        translate_navigation_key(KeyCode::KeyZ, key, true, true, false, false),
        vec![0x1b, 0x1a]
    );
    assert_eq!(ctrl_keycode_byte(KeyCode::KeyA), Some(0x01));
    assert_eq!(ctrl_keycode_byte(KeyCode::Digit0), None);
}

#[test]
fn special_keys_follow_the_requested_encoding() {
    assert_eq!(
        encode_modified_special_key(KeyCode::Enter, true, false, false, true, None),
        Some(b"\x1b[13;5u".to_vec())
    );
    assert_eq!(
        encode_modified_special_key(KeyCode::NumpadEnter, true, false, false, true, Some(1)),
        Some(b"\x1b[13;5u".to_vec())
    );
    assert_eq!(
        encode_modified_special_key(KeyCode::Tab, false, false, true, false, Some(1)),
        Some(b"\x1b[27;2;9~".to_vec())
    );
    assert_eq!(
        encode_modified_special_key(KeyCode::Backspace, false, true, false, true, None),
        Some(b"\x1b[127;3u".to_vec())
    );
    assert_eq!(
        encode_modified_special_key(KeyCode::Escape, false, true, true, false, Some(2)),
        Some(b"\x1b[27;4;27~".to_vec())
    );
    assert_eq!(
        encode_modified_special_key(KeyCode::Enter, true, false, false, false, None),
        None
    );
    assert_eq!(
        encode_modified_special_key(KeyCode::Enter, false, false, false, true, Some(1)),
        None
    );
    assert_eq!(
        encode_modified_special_key(KeyCode::Space, true, false, false, true, Some(1)),
        None
    );
}

#[test]
fn plain_keys_are_sent_as_they_are() {
    let send = |key_code: KeyCode, alt: bool| {
        translate_navigation_key(key_code, Key::Other, false, alt, false, false)
    };
    assert_eq!(send(KeyCode::Enter, false), b"\r");
    assert_eq!(send(KeyCode::NumpadEnter, false), b"\r");
    assert_eq!(send(KeyCode::Tab, false), b"\t");
    assert_eq!(send(KeyCode::Space, false), b" ");
    assert_eq!(send(KeyCode::Backspace, false), vec![0x7f]);
    assert_eq!(send(KeyCode::Escape, false), vec![0x1b]);
    assert_eq!(send(KeyCode::Enter, true), b"\x1b\r");
    assert_eq!(send(KeyCode::Other, false), b"");
}

#[test]
fn alt_gr_types_text_before_anything_else() {
    let key = Key::Character("q".to_owned());
    let bytes = translate_key(
        KeyCode::KeyQ,
        KeyTranslationContext {
            logical_key: &key,
            text: Some("@"),
            ctrl_pressed: true,
            alt_pressed: true,
            alt_gr_pressed: true,
            shift_pressed: false,
            application_cursor: false,
            kitty_keyboard_flags: 0,
            modify_other_keys: None,
        },
    );
    assert_eq!(bytes, b"@");
}

#[test]
fn typed_text_prefers_the_event() {
    let key = Key::Character("a".to_owned());
    assert_eq!(printable_text(Some("A"), &key), Some("A"));
    assert_eq!(printable_text(None, &key), Some("a"));
    assert_eq!(printable_text(Some(""), &key), None);
    assert_eq!(printable_text(None, &Key::Home), None);
}

#[test]
fn keypad_navigation_sends_what_the_cluster_sends() {
    assert_eq!(
        translate_navigation_key(KeyCode::Other, Key::Home, false, false, false, false),
        b"\x1b[1~"
    );
    assert_eq!(
        translate_navigation_key(KeyCode::Numpad0, Key::Insert, false, true, false, false),
        b"\x1b[2;3~"
    );
    assert_eq!(navigation_key_code(&Key::PageDown), Some(KeyCode::PageDown));
    assert_eq!(navigation_key_code(&Key::Other), None);
}

#[test]
fn keyboards_track_modifiers() {
    let mut keyboard = TerminalKeyboard::default();
    let control = press(KeyCode::ControlRight, Key::Other, None);
    assert_eq!(keyboard.handle_event_with_modes(&control, false, 0, None), None);
    assert!(keyboard.ctrl_pressed);
    assert!(keyboard.modifiers().control);
    let letter = press(KeyCode::KeyA, Key::Character("a".to_owned()), Some("a"));
    assert_eq!(
        keyboard.handle_event_with_modes(&letter, false, 0, None),
        Some(vec![0x01])
    );
    assert_eq!(
        keyboard.handle_event_with_modes(&release(KeyCode::KeyA), false, 0, None),
        None
    );
    assert_eq!(
        keyboard.handle_event_with_modes(&release(KeyCode::ControlLeft), false, 0, None),
        None
    );
    assert_eq!(keyboard, TerminalKeyboard::default());
    assert_eq!(
        keyboard.handle_event_with_modes(&letter, false, 0, None),
        Some(b"a".to_vec())
    );
}

#[test]
fn right_alt_is_no_binding_modifier() {
    let mut keyboard = TerminalKeyboard::default();
    let alt_gr = press(KeyCode::AltRight, Key::Other, None);
    keyboard.handle_event_with_modes(&alt_gr, false, 0, None);
    assert!(keyboard.right_alt_pressed);
    assert!(!keyboard.modifiers().alt);
    let held = current_modifiers(&[KeyCode::AltRight, KeyCode::ShiftLeft, KeyCode::KeyA]);
    assert!(held.shift);
    assert!(!held.alt && !held.control && !held.super_key);
    let held = current_modifiers(&[KeyCode::AltLeft, KeyCode::SuperRight, KeyCode::ControlLeft]);
    assert!(held.alt && held.super_key && held.control && !held.shift);
}

#[test]
fn modifier_keys_are_known() {
    assert!(is_modifier_key(KeyCode::SuperLeft));
    assert!(is_modifier_key(KeyCode::AltRight));
    assert!(!is_modifier_key(KeyCode::Enter));
}

#[test]
fn key_names_are_parsed() {
    assert_eq!(parse_key_code(" A "), Some(KeyCode::KeyA));
    assert_eq!(parse_key_code("F12"), Some(KeyCode::F12));
    assert_eq!(parse_key_code("page_up"), Some(KeyCode::PageUp));
    assert_eq!(parse_key_code("esc"), Some(KeyCode::Escape));
    assert_eq!(parse_key_code("+"), Some(KeyCode::Equal));
    assert_eq!(parse_key_code("numpadsubtract"), Some(KeyCode::NumpadSubtract));
    assert_eq!(parse_key_code("insert"), None);
    assert_eq!(parse_key_code(""), None);
}
