use ratty::bindings::{
    parse_modifier, BindingModifiers, KeyBinding, ParsedModifier, TerminalKeyBindings,
};
use ratty::config::{BindingAction, BindingsConfig, KeyBindingConfig};
use ratty::keys::KeyCode;

fn entry(key: &str, with: &str, action: BindingAction) -> KeyBindingConfig {
    KeyBindingConfig { key: key.to_owned(), with: with.to_owned(), action }
}

fn held(control: bool, alt: bool, shift: bool) -> BindingModifiers {
    BindingModifiers { control, alt, shift, super_key: false }
}

fn resolve(keys: Vec<KeyBindingConfig>) -> TerminalKeyBindings {
    TerminalKeyBindings::from_config(&BindingsConfig { keys })
}

#[test]
fn default_bindings_answer() {
    let bindings = resolve(Vec::new());
    let action = |key, control, alt| bindings.action_for(key, held(control, alt, false));
    assert_eq!(action(KeyCode::Enter, true, true), Some(BindingAction::Toggle3DMode));
    assert_eq!(action(KeyCode::KeyM, true, true), Some(BindingAction::ToggleMobiusMode));
    assert_eq!(action(KeyCode::PageUp, false, true), Some(BindingAction::ScrollPageUp));
    assert_eq!(action(KeyCode::PageDown, false, true), Some(BindingAction::ScrollPageDown));
    assert_eq!(action(KeyCode::ArrowUp, false, true), Some(BindingAction::ScrollUp));
    assert_eq!(action(KeyCode::ArrowDown, false, true), Some(BindingAction::ScrollDown));
    assert_eq!(action(KeyCode::ArrowUp, true, true), Some(BindingAction::IncreaseWarp));
    assert_eq!(action(KeyCode::ArrowDown, true, true), Some(BindingAction::DecreaseWarp));
    assert_eq!(action(KeyCode::KeyC, true, true), Some(BindingAction::Copy));
    assert_eq!(action(KeyCode::KeyV, true, true), Some(BindingAction::Paste));
    assert_eq!(action(KeyCode::Equal, true, false), Some(BindingAction::IncreaseFontSize));
    assert_eq!(action(KeyCode::NumpadAdd, true, false), Some(BindingAction::IncreaseFontSize));
    assert_eq!(action(KeyCode::Minus, true, false), Some(BindingAction::DecreaseFontSize));
    assert_eq!(
        action(KeyCode::NumpadSubtract, true, false),
        Some(BindingAction::DecreaseFontSize)
    );
    assert_eq!(action(KeyCode::Digit0, true, true), Some(BindingAction::ResetFontSize));
    assert_eq!(action(KeyCode::Numpad0, true, true), Some(BindingAction::ResetFontSize));
    assert_eq!(action(KeyCode::KeyC, true, false), None);
    assert_eq!(action(KeyCode::Enter, false, false), None);
}

#[test]
fn extra_modifiers_do_not_prevent_a_binding() {
    let bindings = resolve(Vec::new());
    assert_eq!(
        bindings.action_for(KeyCode::Equal, held(true, false, true)),
        Some(BindingAction::IncreaseFontSize)
    );
    assert_eq!(
        bindings.action_for(KeyCode::ArrowUp, held(true, true, true)),
        Some(BindingAction::IncreaseWarp)
    );
}

#[test]
fn later_bindings_win_among_equally_specific_ones() {
    let bindings = resolve(vec![
        entry("a", "control", BindingAction::Copy),
        entry("a", "shift", BindingAction::Paste),
    ]);
    assert_eq!(
        bindings.action_for(KeyCode::KeyA, held(true, false, true)),
        Some(BindingAction::Paste)
    );
    assert_eq!(
        bindings.action_for(KeyCode::KeyA, held(true, false, false)),
        Some(BindingAction::Copy)
    );
}

#[test]
fn configured_bindings_replace_defaults() {
    let bindings = resolve(vec![entry("c", "alt | ctrl", BindingAction::Paste)]);
    assert_eq!(
        bindings.action_for(KeyCode::KeyC, held(true, true, false)),
        Some(BindingAction::Paste)
    );
    assert_eq!(
        bindings.action_for(KeyCode::KeyV, held(true, true, false)),
        Some(BindingAction::Paste)
    );
}

#[test]
fn disabled_bindings_leave_their_trigger_unbound() {
    let bindings = resolve(vec![entry("up", "ctrl|alt", BindingAction::Disabled)]);
    assert_eq!(
        bindings.action_for(KeyCode::ArrowUp, held(true, true, false)),
        Some(BindingAction::ScrollUp)
    );
    let bindings = resolve(vec![
        entry("up", "ctrl|alt", BindingAction::Disabled),
        entry("up", "alt", BindingAction::Disabled),
    ]);
    assert_eq!(bindings.action_for(KeyCode::ArrowUp, held(true, true, false)), None);
}

#[test]
fn invalid_entries_are_ignored() {
    let bindings = resolve(vec![
        entry("nonsense", "ctrl", BindingAction::Copy),
        entry("a|b", "ctrl", BindingAction::Copy),
    ]);
    assert_eq!(bindings.action_for(KeyCode::KeyA, held(true, false, false)), None);
    assert_eq!(
        bindings.action_for(KeyCode::KeyC, held(true, true, false)),
        Some(BindingAction::Copy)
    );
}

#[test]
fn entries_are_read_from_either_field() {
    let binding = KeyBinding::from_config(&entry("Ctrl|x", " SHIFT ||meta", BindingAction::Copy));
    let binding = binding.unwrap();
    assert_eq!(binding.key_code, KeyCode::KeyX);
    assert_eq!(
        binding.modifiers,
        BindingModifiers { control: true, alt: false, shift: true, super_key: true }
    );
    assert_eq!(binding.action, BindingAction::Copy);
    let binding = KeyBinding::from_config(&entry("alt", "f5", BindingAction::Paste)).unwrap();
    assert_eq!(binding.key_code, KeyCode::F5);
    assert_eq!(binding.modifiers, held(false, true, false));
}

#[test]
fn nothing_but_modifiers_may_follow_the_key() {
    assert_eq!(KeyBinding::from_config(&entry("x|y", "", BindingAction::Copy)), None);
    assert_eq!(KeyBinding::from_config(&entry("x|huh", "", BindingAction::Copy)), None);
    assert_eq!(KeyBinding::from_config(&entry("", "ctrl", BindingAction::Copy)), None);
    let binding = KeyBinding::from_config(&entry("huh|x", "", BindingAction::Copy)).unwrap();
    assert_eq!(binding.key_code, KeyCode::KeyX);
}

#[test]
fn modifier_names_are_parsed() {
    assert_eq!(parse_modifier("Control"), Some(ParsedModifier::Control));
    assert_eq!(parse_modifier(" ctrl "), Some(ParsedModifier::Control));
    assert_eq!(parse_modifier("ALT"), Some(ParsedModifier::Alt));
    assert_eq!(parse_modifier("shift"), Some(ParsedModifier::Shift));
    assert_eq!(parse_modifier("super"), Some(ParsedModifier::Super));
    assert_eq!(parse_modifier("cmd"), Some(ParsedModifier::Super));
    assert_eq!(parse_modifier("command"), Some(ParsedModifier::Super));
    assert_eq!(parse_modifier("meta"), Some(ParsedModifier::Super));
    assert_eq!(parse_modifier("hyper"), None);
}

#[test]
fn modifier_sets_are_joined_and_counted() {
    let one = held(true, false, false);
    let two = held(false, true, true);
    assert_eq!(one.union(two), held(true, true, true));
    assert_eq!(one.union(two).count(), 3);
    assert_eq!(BindingModifiers::default().count(), 0);
    assert!(one.matches(held(true, true, false)));
    assert!(!two.matches(one));
    let mut set = one;
    ParsedModifier::Super.apply(&mut set);
    assert!(set.super_key && set.control);
    let binding = KeyBinding::new(KeyCode::KeyA, one, BindingAction::Copy);
    assert!(binding.same_trigger(&KeyBinding::new(KeyCode::KeyA, one, BindingAction::Paste)));
    assert!(!binding.same_trigger(&KeyBinding::new(KeyCode::KeyA, two, BindingAction::Copy)));
}
