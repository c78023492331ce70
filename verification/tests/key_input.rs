use ratty::bindings::{BindingModifiers, TerminalKeyBindings};
use ratty::config::{BindingAction, BindingsConfig};
use ratty::key_input::{
    decide, handle_keyboard_input, is_scroll_action, respond, KeyDecision, KeyboardCommand,
    TerminalStatus,
};
use ratty::keyboard::{KeyEvent, TerminalKeyboard};
use ratty::keys::{Key, KeyCode};
use ratty::presentation::TerminalPresentationMode;
use ratty::screen::{MouseProtocolEncoding, MouseProtocolMode, ScreenModes};
use ratty::selection::{TerminalSelection, UVec2};

fn bindings() -> TerminalKeyBindings {
    TerminalKeyBindings::from_config(&BindingsConfig::default())
}

fn status() -> TerminalStatus {
    TerminalStatus {
        presentation: TerminalPresentationMode::Flat2d,
        transition_active: false,
        rows: 24,
        font_size: 20,
        kitty_keyboard_flags: 0,
        modify_other_keys: None,
    }
}

fn modes() -> ScreenModes {
    ScreenModes {
        alternate_screen: false,
        bracketed_paste: true,
        application_cursor: false,
        hide_cursor: false,
        mouse_mode: MouseProtocolMode::Off,
        mouse_encoding: MouseProtocolEncoding::Sgr,
        cursor_row: 4,
        cursor_col: 9,
        scrollback: 10,
    }
}

fn held(control: bool, alt: bool) -> BindingModifiers {
    BindingModifiers { control, alt, shift: false, super_key: false }
}

fn event(key_code: KeyCode, pressed: bool, repeat: bool) -> KeyEvent {
    KeyEvent { key_code, logical_key: Key::Other, text: None, pressed, repeat }
}

fn decision(key_code: KeyCode, control: bool, alt: bool) -> KeyDecision {
    decide(
        &bindings(),
        &event(key_code, true, false),
        held(control, alt),
        &modes(),
        &status(),
    )
}

#[test]
fn bound_keys_lead_to_their_actions() {
    assert_eq!(decision(KeyCode::Enter, true, true), KeyDecision::TogglePlaneMode);
    assert_eq!(decision(KeyCode::KeyM, true, true), KeyDecision::ToggleMobiusMode);
    assert_eq!(decision(KeyCode::KeyC, true, true), KeyDecision::Copy);
    assert_eq!(decision(KeyCode::KeyV, true, true), KeyDecision::Paste);
    assert_eq!(
        decision(KeyCode::ArrowUp, true, true),
        KeyDecision::AdjustWarp { increase: true }
    );
    assert_eq!(decision(KeyCode::Equal, true, false), KeyDecision::AdjustFontSize(1));
    assert_eq!(decision(KeyCode::Minus, true, false), KeyDecision::AdjustFontSize(-1));
    assert_eq!(decision(KeyCode::Digit0, true, true), KeyDecision::AdjustFontSize(-2));
    assert_eq!(decision(KeyCode::KeyA, false, false), KeyDecision::Input);
}

#[test]
fn history_is_scrolled_by_lines_and_pages() {
    assert_eq!(decision(KeyCode::ArrowUp, false, true), KeyDecision::ScrollTo(11));
    assert_eq!(decision(KeyCode::ArrowDown, false, true), KeyDecision::ScrollTo(9));
    assert_eq!(decision(KeyCode::PageUp, false, true), KeyDecision::ScrollTo(33));
    assert_eq!(decision(KeyCode::PageDown, false, true), KeyDecision::ScrollTo(0));
    let small = TerminalStatus { rows: 0, ..status() };
    assert_eq!(
        decide(
            &bindings(),
            &event(KeyCode::PageUp, true, false),
            held(false, true),
            &modes(),
            &small
        ),
        KeyDecision::ScrollTo(11)
    );
}

#[test]
fn scroll_keys_turn_the_wheel_for_mouse_programs() {
    let reporting = ScreenModes { mouse_mode: MouseProtocolMode::Press, ..modes() };
    let page = event(KeyCode::PageUp, true, false);
    assert_eq!(
        decide(&bindings(), &page, held(false, true), &reporting, &status()),
        KeyDecision::Wheel { up: true, count: 23 }
    );
    let space = TerminalStatus { presentation: TerminalPresentationMode::Plane3d, ..status() };
    assert_eq!(
        decide(&bindings(), &page, held(false, true), &reporting, &space),
        KeyDecision::ScrollTo(33)
    );
}

#[test]
fn alternate_screens_get_scroll_keys() {
    let alternate = ScreenModes { alternate_screen: true, ..modes() };
    assert_eq!(
        decide(
            &bindings(),
            &event(KeyCode::PageUp, true, false),
            held(false, true),
            &alternate,
            &status()
        ),
        KeyDecision::Input
    );
    assert!(is_scroll_action(BindingAction::ScrollDown));
    assert!(!is_scroll_action(BindingAction::Copy));
}

#[test]
fn repeats_start_only_repeatable_actions() {
    let repeat = |key_code, control, alt| {
        decide(
            &bindings(),
            &event(key_code, true, true),
            held(control, alt),
            &modes(),
            &status(),
        )
    };
    assert_eq!(repeat(KeyCode::KeyC, true, true), KeyDecision::Ignore);
    assert_eq!(repeat(KeyCode::Enter, true, true), KeyDecision::Ignore);
    assert_eq!(repeat(KeyCode::ArrowUp, false, true), KeyDecision::ScrollTo(11));
    assert_eq!(repeat(KeyCode::KeyA, false, false), KeyDecision::Input);
}

#[test]
fn released_keys_start_nothing() {
    assert_eq!(
        decide(
            &bindings(),
            &event(KeyCode::KeyC, false, false),
            held(true, true),
            &modes(),
            &status()
        ),
        KeyDecision::Input
    );
}

#[test]
fn font_resets_do_nothing_at_the_default_size() {
    let plain = TerminalStatus { font_size: 18, ..status() };
    assert_eq!(
        decide(
            &bindings(),
            &event(KeyCode::Numpad0, true, false),
            held(true, true),
            &modes(),
            &plain
        ),
        KeyDecision::Ignore
    );
}

#[test]
fn logical_navigation_keys_trigger_bindings() {
    let keypad = KeyEvent {
        key_code: KeyCode::Other,
        logical_key: Key::PageUp,
        text: None,
        pressed: true,
        repeat: false,
    };
    assert_eq!(
        decide(&bindings(), &keypad, held(false, true), &modes(), &status()),
        KeyDecision::ScrollTo(33)
    );
}

#[test]
fn responses_clear_the_selection_and_send_input() {
    let mut keyboard = TerminalKeyboard::default();
    let mut selection: TerminalSelection<u8> = TerminalSelection::default();
    selection.begin(UVec2::new(1, 1));
    let key = KeyEvent {
        key_code: KeyCode::KeyX,
        logical_key: Key::Character("x".to_owned()),
        text: None,
        pressed: true,
        repeat: false,
    };
    let outcome = respond(
        KeyDecision::Input,
        &key,
        &mut keyboard,
        &mut selection,
        None,
        &modes(),
        &status(),
    );
    assert!(outcome.redraw);
    assert!(selection.normalized_bounds().is_none());
    match outcome.command {
        KeyboardCommand::SendInput { bytes, reset_scrollback } => {
            assert_eq!(bytes, b"x");
            assert!(reset_scrollback);
        }
        _ => panic!("unexpected command"),
    }
}

#[test]
fn modifier_presses_keep_the_selection() {
    let mut keyboard = TerminalKeyboard::default();
    let mut selection: TerminalSelection<u8> = TerminalSelection::default();
    selection.begin(UVec2::new(1, 1));
    let outcome = respond(
        KeyDecision::Input,
        &event(KeyCode::ShiftLeft, true, false),
        &mut keyboard,
        &mut selection,
        None,
        &modes(),
        &status(),
    );
    assert!(matches!(outcome.command, KeyboardCommand::Nothing));
    assert!(!outcome.redraw);
    assert!(keyboard.shift_pressed);
    assert!(selection.normalized_bounds().is_some());
}

#[test]
fn wheel_responses_report_at_the_cursor() {
    let mut keyboard = TerminalKeyboard::default();
    let mut selection: TerminalSelection<u8> = TerminalSelection::default();
    let outcome = respond(
        KeyDecision::Wheel { up: false, count: 3 },
        &event(KeyCode::ArrowDown, true, false),
        &mut keyboard,
        &mut selection,
        None,
        &modes(),
        &status(),
    );
    assert!(!outcome.redraw);
    match outcome.command {
        KeyboardCommand::SendRepeated { bytes, count } => {
            assert_eq!(bytes, b"\x1b[<65;10;5M");
            assert_eq!(count, 3);
        }
        _ => panic!("unexpected command"),
    }
}

#[test]
fn mobius_toggles_depend_on_the_presentation() {
    let respond_in = |status: &TerminalStatus| {
        let mut keyboard = TerminalKeyboard::default();
        let mut selection: TerminalSelection<u8> = TerminalSelection::default();
        respond(
            KeyDecision::ToggleMobiusMode,
            &event(KeyCode::KeyM, true, false),
            &mut keyboard,
            &mut selection,
            None,
            &modes(),
            status,
        )
        .command
    };
    assert!(matches!(
        respond_in(&status()),
        KeyboardCommand::EnterMobius { previous_mode: TerminalPresentationMode::Flat2d }
    ));
    let strip = TerminalStatus {
        presentation: TerminalPresentationMode::Mobius3d,
        transition_active: true,
        ..status()
    };
    assert!(matches!(
        respond_in(&strip),
        KeyboardCommand::ExitMobius { from_transition: true }
    ));
}

#[test]
fn copies_take_the_selected_text_of_the_screen() {
    let mut parser = vt100::Parser::new(4, 20, 0);
    parser.process(b"hello world");
    let mut keyboard = TerminalKeyboard::default();
    let mut selection: TerminalSelection<u8> = TerminalSelection::default();
    selection.begin(UVec2::new(6, 0));
    selection.update(UVec2::new(10, 0));
    let outcome = handle_keyboard_input(
        &bindings(),
        &event(KeyCode::KeyC, true, false),
        held(true, true),
        &mut keyboard,
        &mut selection,
        parser.screen(),
        &status(),
    );
    assert!(outcome.redraw);
    match outcome.command {
        KeyboardCommand::CopyText(text) => assert_eq!(text, "world"),
        _ => panic!("unexpected command"),
    }
    let outcome = handle_keyboard_input(
        &bindings(),
        &event(KeyCode::KeyC, true, false),
        held(true, true),
        &mut keyboard,
        &mut selection,
        parser.screen(),
        &status(),
    );
    assert!(!outcome.redraw);
    assert!(matches!(outcome.command, KeyboardCommand::Nothing));
}

#[test]
fn screen_modes_reach_the_keyboard() {
    let mut parser = vt100::Parser::new(4, 20, 0);
    parser.process(b"\x1b[?1h\x1b[?2004h");
    let mut keyboard = TerminalKeyboard::default();
    let mut selection: TerminalSelection<u8> = TerminalSelection::default();
    let outcome = handle_keyboard_input(
        &bindings(),
        &event(KeyCode::ArrowUp, true, false),
        held(false, false),
        &mut keyboard,
        &mut selection,
        parser.screen(),
        &status(),
    );
    match outcome.command {
        KeyboardCommand::SendInput { bytes, reset_scrollback } => {
            assert_eq!(bytes, b"\x1bOA");
            assert!(!reset_scrollback);
        }
        _ => panic!("unexpected command"),
    }
    let outcome = handle_keyboard_input(
        &bindings(),
        &event(KeyCode::KeyV, true, false),
        held(true, true),
        &mut keyboard,
        &mut selection,
        parser.screen(),
        &status(),
    );
    assert!(matches!(
        outcome.command,
        KeyboardCommand::PasteClipboard { bracketed: true }
    ));
}

#[test]
fn keyboard_state_adds_to_the_held_modifiers() {
    let parser = vt100::Parser::new(4, 20, 0);
    let mut keyboard = TerminalKeyboard::default();
    let mut selection: TerminalSelection<u8> = TerminalSelection::default();
    keyboard.ctrl_pressed = true;
    let outcome = handle_keyboard_input(
        &bindings(),
        &event(KeyCode::Equal, true, false),
        held(false, false),
        &mut keyboard,
        &mut selection,
        parser.screen(),
        &status(),
    );
    assert!(matches!(outcome.command, KeyboardCommand::AdjustFontSize(1)));
}

#[test]
fn only_a_reset_computes_the_distance_to_the_default_font() {
    let extreme = TerminalStatus { font_size: i32::MIN, ..status() };
    let larger = event(KeyCode::Equal, true, false);
    assert_eq!(
        decide(&bindings(), &larger, held(true, false), &modes(), &extreme),
        KeyDecision::AdjustFontSize(1)
    );
    let reset = event(KeyCode::Digit0, false, false);
    assert_eq!(
        decide(&bindings(), &reset, held(true, true), &modes(), &extreme),
        KeyDecision::Input
    );
}
