//! Keys: physical key codes, logical keys and navigation keys.

use vstd::prelude::*;

use crate::text::{
    chars_of, is_space, lower, lowercase_maps_letters_in_order, lowered, normalized_name, same_text,
    trimmed, trimming_ignores_surrounding_space,
};

verus! {

/// Physical keys that bindings and key translation tell apart.
#[derive(Clone, Copy, PartialEq, Eq, Structural, Debug)]
pub enum KeyCode {
    /// The A key.
    KeyA,
    /// The B key.
    KeyB,
    /// The C key.
    KeyC,
    /// The D key.
    KeyD,
    /// The E key.
    KeyE,
    /// The F key.
    KeyF,
    /// The G key.
    KeyG,
    /// The H key.
    KeyH,
    /// The I key.
    KeyI,
    /// The J key.
    KeyJ,
    /// The K key.
    KeyK,
    /// The L key.
    KeyL,
    /// The M key.
    KeyM,
    /// The N key.
    KeyN,
    /// The O key.
    KeyO,
    /// The P key.
    KeyP,
    /// The Q key.
    KeyQ,
    /// The R key.
    KeyR,
    /// The S key.
    KeyS,
    /// The T key.
    KeyT,
    /// The U key.
    KeyU,
    /// The V key.
    KeyV,
    /// The W key.
    KeyW,
    /// The X key.
    KeyX,
    /// The Y key.
    KeyY,
    /// The Z key.
    KeyZ,
    /// The 0 key of the digit row.
    Digit0,
    /// The 1 key of the digit row.
    Digit1,
    /// The 2 key of the digit row.
    Digit2,
    /// The 3 key of the digit row.
    Digit3,
    /// The 4 key of the digit row.
    Digit4,
    /// The 5 key of the digit row.
    Digit5,
    /// The 6 key of the digit row.
    Digit6,
    /// The 7 key of the digit row.
    Digit7,
    /// The 8 key of the digit row.
    Digit8,
    /// The 9 key of the digit row.
    Digit9,
    /// Function key 1.
    F1,
    /// Function key 2.
    F2,
    /// Function key 3.
    F3,
    /// Function key 4.
    F4,
    /// Function key 5.
    F5,
    /// Function key 6.
    F6,
    /// Function key 7.
    F7,
    /// Function key 8.
    F8,
    /// Function key 9.
    F9,
    /// Function key 10.
    F10,
    /// Function key 11.
    F11,
    /// Function key 12.
    F12,
    /// The arrow up key.
    ArrowUp,
    /// The arrow down key.
    ArrowDown,
    /// The arrow left key.
    ArrowLeft,
    /// The arrow right key.
    ArrowRight,
    /// The enter key.
    Enter,
    /// The numpad enter key.
    NumpadEnter,
    /// The tab key.
    Tab,
    /// The space key.
    Space,
    /// The backspace key.
    Backspace,
    /// The escape key.
    Escape,
    /// The insert key.
    Insert,
    /// The delete key.
    Delete,
    /// The home key.
    Home,
    /// The end key.
    End,
    /// The page up key.
    PageUp,
    /// The page down key.
    PageDown,
    /// The equal key.
    Equal,
    /// The minus key.
    Minus,
    /// The numpad add key.
    NumpadAdd,
    /// The numpad subtract key.
    NumpadSubtract,
    /// The numpad 0 key.
    Numpad0,
    /// The control left key.
    ControlLeft,
    /// The control right key.
    ControlRight,
    /// The alt left key.
    AltLeft,
    /// The alt right key.
    AltRight,
    /// The shift left key.
    ShiftLeft,
    /// The shift right key.
    ShiftRight,
    /// The super left key.
    SuperLeft,
    /// The super right key.
    SuperRight,
    /// Any other key.
    Other,
}

/// Logical keys: what a key press means under the active layout.
pub enum Key {
    /// A key that types text.
    Character(String),
    /// The arrow up key.
    ArrowUp,
    /// The arrow down key.
    ArrowDown,
    /// The arrow right key.
    ArrowRight,
    /// The arrow left key.
    ArrowLeft,
    /// The home key.
    Home,
    /// The end key.
    End,
    /// The page up key.
    PageUp,
    /// The page down key.
    PageDown,
    /// The insert key.
    Insert,
    /// The delete key.
    Delete,
    /// Any other logical key.
    Other,
}

/// Keys of the navigation cluster.
#[derive(Clone, Copy, PartialEq, Eq, Structural, Debug)]
pub enum NavigationKey {
    /// The arrow up key.
    ArrowUp,
    /// The arrow down key.
    ArrowDown,
    /// The arrow right key.
    ArrowRight,
    /// The arrow left key.
    ArrowLeft,
    /// The home key.
    Home,
    /// The end key.
    End,
    /// The page up key.
    PageUp,
    /// The page down key.
    PageDown,
    /// The insert key.
    Insert,
    /// The delete key.
    Delete,
}

/// The navigation key that a physical key is.
pub open spec fn physical_navigation(key_code: KeyCode) -> Option<NavigationKey> {
    match key_code {
        KeyCode::ArrowUp => Some(NavigationKey::ArrowUp),
        KeyCode::ArrowDown => Some(NavigationKey::ArrowDown),
        KeyCode::ArrowRight => Some(NavigationKey::ArrowRight),
        KeyCode::ArrowLeft => Some(NavigationKey::ArrowLeft),
        KeyCode::Home => Some(NavigationKey::Home),
        KeyCode::End => Some(NavigationKey::End),
        KeyCode::PageUp => Some(NavigationKey::PageUp),
        KeyCode::PageDown => Some(NavigationKey::PageDown),
        KeyCode::Insert => Some(NavigationKey::Insert),
        KeyCode::Delete => Some(NavigationKey::Delete),
        _ => None,
    }
}

/// The navigation key that a logical key means.
pub open spec fn logical_navigation(logical_key: Key) -> Option<NavigationKey> {
    match logical_key {
        Key::ArrowUp => Some(NavigationKey::ArrowUp),
        Key::ArrowDown => Some(NavigationKey::ArrowDown),
        Key::ArrowRight => Some(NavigationKey::ArrowRight),
        Key::ArrowLeft => Some(NavigationKey::ArrowLeft),
        Key::Home => Some(NavigationKey::Home),
        Key::End => Some(NavigationKey::End),
        Key::PageUp => Some(NavigationKey::PageUp),
        Key::PageDown => Some(NavigationKey::PageDown),
        Key::Insert => Some(NavigationKey::Insert),
        Key::Delete => Some(NavigationKey::Delete),
        _ => None,
    }
}

/// The physical key of a navigation key.
pub open spec fn navigation_code(key: NavigationKey) -> KeyCode {
    match key {
        NavigationKey::ArrowUp => KeyCode::ArrowUp,
        NavigationKey::ArrowDown => KeyCode::ArrowDown,
        NavigationKey::ArrowRight => KeyCode::ArrowRight,
        NavigationKey::ArrowLeft => KeyCode::ArrowLeft,
        NavigationKey::Home => KeyCode::Home,
        NavigationKey::End => KeyCode::End,
        NavigationKey::PageUp => KeyCode::PageUp,
        NavigationKey::PageDown => KeyCode::PageDown,
        NavigationKey::Insert => KeyCode::Insert,
        NavigationKey::Delete => KeyCode::Delete,
    }
}

impl NavigationKey {
    /// The navigation key that a physical key is.
    pub fn from_key_code(key_code: KeyCode) -> (key: Option<Self>)
        ensures
            key == physical_navigation(key_code),
    {
        match key_code {
            KeyCode::ArrowUp => Some(NavigationKey::ArrowUp),
            KeyCode::ArrowDown => Some(NavigationKey::ArrowDown),
            KeyCode::ArrowRight => Some(NavigationKey::ArrowRight),
            KeyCode::ArrowLeft => Some(NavigationKey::ArrowLeft),
            KeyCode::Home => Some(NavigationKey::Home),
            KeyCode::End => Some(NavigationKey::End),
            KeyCode::PageUp => Some(NavigationKey::PageUp),
            KeyCode::PageDown => Some(NavigationKey::PageDown),
            KeyCode::Insert => Some(NavigationKey::Insert),
            KeyCode::Delete => Some(NavigationKey::Delete),
            _ => None,
        }
    }

    /// The navigation key that a logical key means. Keypad navigation arrives as
    /// a keypad key paired with a logical navigation key.
    pub fn from_logical_key(logical_key: &Key) -> (key: Option<Self>)
        ensures
            key == logical_navigation(*logical_key),
    {
        match logical_key {
            Key::ArrowUp => Some(NavigationKey::ArrowUp),
            Key::ArrowDown => Some(NavigationKey::ArrowDown),
            Key::ArrowRight => Some(NavigationKey::ArrowRight),
            Key::ArrowLeft => Some(NavigationKey::ArrowLeft),
            Key::Home => Some(NavigationKey::Home),
            Key::End => Some(NavigationKey::End),
            Key::PageUp => Some(NavigationKey::PageUp),
            Key::PageDown => Some(NavigationKey::PageDown),
            Key::Insert => Some(NavigationKey::Insert),
            Key::Delete => Some(NavigationKey::Delete),
            _ => None,
        }
    }

    /// The physical key of a navigation key.
    pub fn key_code(self) -> (key_code: KeyCode)
        ensures
            key_code == navigation_code(self),
    {
        match self {
            NavigationKey::ArrowUp => KeyCode::ArrowUp,
            NavigationKey::ArrowDown => KeyCode::ArrowDown,
            NavigationKey::ArrowRight => KeyCode::ArrowRight,
            NavigationKey::ArrowLeft => KeyCode::ArrowLeft,
            NavigationKey::Home => KeyCode::Home,
            NavigationKey::End => KeyCode::End,
            NavigationKey::PageUp => KeyCode::PageUp,
            NavigationKey::PageDown => KeyCode::PageDown,
            NavigationKey::Insert => KeyCode::Insert,
            NavigationKey::Delete => KeyCode::Delete,
        }
    }
}

/// The physical navigation key that a logical key stands for.
pub fn navigation_key_code(logical_key: &Key) -> (key_code: Option<KeyCode>)
    ensures
        key_code == (match logical_navigation(*logical_key) {
            Some(key) => Some(navigation_code(key)),
            None => None,
        }),
{
    match NavigationKey::from_logical_key(logical_key) {
        Some(key) => Some(key.key_code()),
        None => None,
    }
}

/// Whether a key is one of the modifier keys.
pub open spec fn modifier_key(key: KeyCode) -> bool {
    ||| key == KeyCode::ControlLeft
    ||| key == KeyCode::ControlRight
    ||| key == KeyCode::AltLeft
    ||| key == KeyCode::AltRight
    ||| key == KeyCode::ShiftLeft
    ||| key == KeyCode::ShiftRight
    ||| key == KeyCode::SuperLeft
    ||| key == KeyCode::SuperRight
}

/// Tests whether a key is one of the modifier keys.
pub fn is_modifier_key(key: KeyCode) -> (r: bool)
    ensures
        r == modifier_key(key),
{
    matches!(
        key,
        KeyCode::ControlLeft
            | KeyCode::ControlRight
            | KeyCode::AltLeft
            | KeyCode::AltRight
            | KeyCode::ShiftLeft
            | KeyCode::ShiftRight
            | KeyCode::SuperLeft
            | KeyCode::SuperRight
    )
}

/// The letter position of a letter key, counted from one.
pub open spec fn ctrl_byte(key: KeyCode) -> Option<u8> {
    match key {
        KeyCode::KeyA => Some(0x01),
        KeyCode::KeyB => Some(0x02),
        KeyCode::KeyC => Some(0x03),
        KeyCode::KeyD => Some(0x04),
        KeyCode::KeyE => Some(0x05),
        KeyCode::KeyF => Some(0x06),
        KeyCode::KeyG => Some(0x07),
        KeyCode::KeyH => Some(0x08),
        KeyCode::KeyI => Some(0x09),
        KeyCode::KeyJ => Some(0x0a),
        KeyCode::KeyK => Some(0x0b),
        KeyCode::KeyL => Some(0x0c),
        KeyCode::KeyM => Some(0x0d),
        KeyCode::KeyN => Some(0x0e),
        KeyCode::KeyO => Some(0x0f),
        KeyCode::KeyP => Some(0x10),
        KeyCode::KeyQ => Some(0x11),
        KeyCode::KeyR => Some(0x12),
        KeyCode::KeyS => Some(0x13),
        KeyCode::KeyT => Some(0x14),
        KeyCode::KeyU => Some(0x15),
        KeyCode::KeyV => Some(0x16),
        KeyCode::KeyW => Some(0x17),
        KeyCode::KeyX => Some(0x18),
        KeyCode::KeyY => Some(0x19),
        KeyCode::KeyZ => Some(0x1a),
        _ => None,
    }
}

/// The control byte that a letter key sends while Control is held.
pub fn ctrl_keycode_byte(key: KeyCode) -> (byte: Option<u8>)
    ensures
        byte == ctrl_byte(key),
{
    match key {
        KeyCode::KeyA => Some(0x01),
        KeyCode::KeyB => Some(0x02),
        KeyCode::KeyC => Some(0x03),
        KeyCode::KeyD => Some(0x04),
        KeyCode::KeyE => Some(0x05),
        KeyCode::KeyF => Some(0x06),
        KeyCode::KeyG => Some(0x07),
        KeyCode::KeyH => Some(0x08),
        KeyCode::KeyI => Some(0x09),
        KeyCode::KeyJ => Some(0x0a),
        KeyCode::KeyK => Some(0x0b),
        KeyCode::KeyL => Some(0x0c),
        KeyCode::KeyM => Some(0x0d),
        KeyCode::KeyN => Some(0x0e),
        KeyCode::KeyO => Some(0x0f),
        KeyCode::KeyP => Some(0x10),
        KeyCode::KeyQ => Some(0x11),
        KeyCode::KeyR => Some(0x12),
        KeyCode::KeyS => Some(0x13),
        KeyCode::KeyT => Some(0x14),
        KeyCode::KeyU => Some(0x15),
        KeyCode::KeyV => Some(0x16),
        KeyCode::KeyW => Some(0x17),
        KeyCode::KeyX => Some(0x18),
        KeyCode::KeyY => Some(0x19),
        KeyCode::KeyZ => Some(0x1a),
        _ => None,
    }
}

/// The key that a lowercase name stands for in a binding.
pub open spec fn key_named(name: Seq<char>) -> Option<KeyCode> {
    if name == "a"@ {
        Some(KeyCode::KeyA)
    } else if name == "b"@ {
        Some(KeyCode::KeyB)
    } else if name == "c"@ {
        Some(KeyCode::KeyC)
    } else if name == "d"@ {
        Some(KeyCode::KeyD)
    } else if name == "e"@ {
        Some(KeyCode::KeyE)
    } else if name == "f"@ {
        Some(KeyCode::KeyF)
    } else if name == "g"@ {
        Some(KeyCode::KeyG)
    } else if name == "h"@ {
        Some(KeyCode::KeyH)
    } else if name == "i"@ {
        Some(KeyCode::KeyI)
    } else if name == "j"@ {
        Some(KeyCode::KeyJ)
    } else if name == "k"@ {
        Some(KeyCode::KeyK)
    } else if name == "l"@ {
        Some(KeyCode::KeyL)
    } else if name == "m"@ {
        Some(KeyCode::KeyM)
    } else if name == "n"@ {
        Some(KeyCode::KeyN)
    } else if name == "o"@ {
        Some(KeyCode::KeyO)
    } else if name == "p"@ {
        Some(KeyCode::KeyP)
    } else if name == "q"@ {
        Some(KeyCode::KeyQ)
    } else if name == "r"@ {
        Some(KeyCode::KeyR)
    } else if name == "s"@ {
        Some(KeyCode::KeyS)
    } else if name == "t"@ {
        Some(KeyCode::KeyT)
    } else if name == "u"@ {
        Some(KeyCode::KeyU)
    } else if name == "v"@ {
        Some(KeyCode::KeyV)
    } else if name == "w"@ {
        Some(KeyCode::KeyW)
    } else if name == "x"@ {
        Some(KeyCode::KeyX)
    } else if name == "y"@ {
        Some(KeyCode::KeyY)
    } else if name == "z"@ {
        Some(KeyCode::KeyZ)
    } else if name == "0"@ {
        Some(KeyCode::Digit0)
    } else if name == "1"@ {
        Some(KeyCode::Digit1)
    } else if name == "2"@ {
        Some(KeyCode::Digit2)
    } else if name == "3"@ {
        Some(KeyCode::Digit3)
    } else if name == "4"@ {
        Some(KeyCode::Digit4)
    } else if name == "5"@ {
        Some(KeyCode::Digit5)
    } else if name == "6"@ {
        Some(KeyCode::Digit6)
    } else if name == "7"@ {
        Some(KeyCode::Digit7)
    } else if name == "8"@ {
        Some(KeyCode::Digit8)
    } else if name == "9"@ {
        Some(KeyCode::Digit9)
    } else if name == "f1"@ {
        Some(KeyCode::F1)
    } else if name == "f2"@ {
        Some(KeyCode::F2)
    } else if name == "f3"@ {
        Some(KeyCode::F3)
    } else if name == "f4"@ {
        Some(KeyCode::F4)
    } else if name == "f5"@ {
        Some(KeyCode::F5)
    } else if name == "f6"@ {
        Some(KeyCode::F6)
    } else if name == "f7"@ {
        Some(KeyCode::F7)
    } else if name == "f8"@ {
        Some(KeyCode::F8)
    } else if name == "f9"@ {
        Some(KeyCode::F9)
    } else if name == "f10"@ {
        Some(KeyCode::F10)
    } else if name == "f11"@ {
        Some(KeyCode::F11)
    } else if name == "f12"@ {
        Some(KeyCode::F12)
    } else if name == "up"@ {
        Some(KeyCode::ArrowUp)
    } else if name == "down"@ {
        Some(KeyCode::ArrowDown)
    } else if name == "left"@ {
        Some(KeyCode::ArrowLeft)
    } else if name == "right"@ {
        Some(KeyCode::ArrowRight)
    } else if name == "enter"@ {
        Some(KeyCode::Enter)
    } else if name == "tab"@ {
        Some(KeyCode::Tab)
    } else if name == "space"@ {
        Some(KeyCode::Space)
    } else if name == "backspace"@ {
        Some(KeyCode::Backspace)
    } else if name == "escape"@ || name == "esc"@ {
        Some(KeyCode::Escape)
    } else if name == "delete"@ {
        Some(KeyCode::Delete)
    } else if name == "home"@ {
        Some(KeyCode::Home)
    } else if name == "end"@ {
        Some(KeyCode::End)
    } else if name == "pageup"@ || name == "page_up"@ {
        Some(KeyCode::PageUp)
    } else if name == "pagedown"@ || name == "page_down"@ {
        Some(KeyCode::PageDown)
    } else if name == "equal"@ || name == "="@ || name == "plus"@ || name == "+"@ {
        Some(KeyCode::Equal)
    } else if name == "minus"@ || name == "-"@ {
        Some(KeyCode::Minus)
    } else if name == "numpadadd"@ || name == "numpad_add"@ {
        Some(KeyCode::NumpadAdd)
    } else if name == "numpadsubtract"@ || name == "numpad_subtract"@ {
        Some(KeyCode::NumpadSubtract)
    } else {
        None
    }
}

/// Looks up the key that a lowercase name stands for.
pub fn named_key(name: &[char]) -> (key: Option<KeyCode>)
    ensures
        key == key_named(name@),
{
    if same_text(name, "a") {
        Some(KeyCode::KeyA)
    } else if same_text(name, "b") {
        Some(KeyCode::KeyB)
    } else if same_text(name, "c") {
        Some(KeyCode::KeyC)
    } else if same_text(name, "d") {
        Some(KeyCode::KeyD)
    } else if same_text(name, "e") {
        Some(KeyCode::KeyE)
    } else if same_text(name, "f") {
        Some(KeyCode::KeyF)
    } else if same_text(name, "g") {
        Some(KeyCode::KeyG)
    } else if same_text(name, "h") {
        Some(KeyCode::KeyH)
    } else if same_text(name, "i") {
        Some(KeyCode::KeyI)
    } else if same_text(name, "j") {
        Some(KeyCode::KeyJ)
    } else if same_text(name, "k") {
        Some(KeyCode::KeyK)
    } else if same_text(name, "l") {
        Some(KeyCode::KeyL)
    } else if same_text(name, "m") {
        Some(KeyCode::KeyM)
    } else if same_text(name, "n") {
        Some(KeyCode::KeyN)
    } else if same_text(name, "o") {
        Some(KeyCode::KeyO)
    } else if same_text(name, "p") {
        Some(KeyCode::KeyP)
    } else if same_text(name, "q") {
        Some(KeyCode::KeyQ)
    } else if same_text(name, "r") {
        Some(KeyCode::KeyR)
    } else if same_text(name, "s") {
        Some(KeyCode::KeyS)
    } else if same_text(name, "t") {
        Some(KeyCode::KeyT)
    } else if same_text(name, "u") {
        Some(KeyCode::KeyU)
    } else if same_text(name, "v") {
        Some(KeyCode::KeyV)
    } else if same_text(name, "w") {
        Some(KeyCode::KeyW)
    } else if same_text(name, "x") {
        Some(KeyCode::KeyX)
    } else if same_text(name, "y") {
        Some(KeyCode::KeyY)
    } else if same_text(name, "z") {
        Some(KeyCode::KeyZ)
    } else if same_text(name, "0") {
        Some(KeyCode::Digit0)
    } else if same_text(name, "1") {
        Some(KeyCode::Digit1)
    } else if same_text(name, "2") {
        Some(KeyCode::Digit2)
    } else if same_text(name, "3") {
        Some(KeyCode::Digit3)
    } else if same_text(name, "4") {
        Some(KeyCode::Digit4)
    } else if same_text(name, "5") {
        Some(KeyCode::Digit5)
    } else if same_text(name, "6") {
        Some(KeyCode::Digit6)
    } else if same_text(name, "7") {
        Some(KeyCode::Digit7)
    } else if same_text(name, "8") {
        Some(KeyCode::Digit8)
    } else if same_text(name, "9") {
        Some(KeyCode::Digit9)
    } else if same_text(name, "f1") {
        Some(KeyCode::F1)
    } else if same_text(name, "f2") {
        Some(KeyCode::F2)
    } else if same_text(name, "f3") {
        Some(KeyCode::F3)
    } else if same_text(name, "f4") {
        Some(KeyCode::F4)
    } else if same_text(name, "f5") {
        Some(KeyCode::F5)
    } else if same_text(name, "f6") {
        Some(KeyCode::F6)
    } else if same_text(name, "f7") {
        Some(KeyCode::F7)
    } else if same_text(name, "f8") {
        Some(KeyCode::F8)
    } else if same_text(name, "f9") {
        Some(KeyCode::F9)
    } else if same_text(name, "f10") {
        Some(KeyCode::F10)
    } else if same_text(name, "f11") {
        Some(KeyCode::F11)
    } else if same_text(name, "f12") {
        Some(KeyCode::F12)
    } else if same_text(name, "up") {
        Some(KeyCode::ArrowUp)
    } else if same_text(name, "down") {
        Some(KeyCode::ArrowDown)
    } else if same_text(name, "left") {
        Some(KeyCode::ArrowLeft)
    } else if same_text(name, "right") {
        Some(KeyCode::ArrowRight)
    } else if same_text(name, "enter") {
        Some(KeyCode::Enter)
    } else if same_text(name, "tab") {
        Some(KeyCode::Tab)
    } else if same_text(name, "space") {
        Some(KeyCode::Space)
    } else if same_text(name, "backspace") {
        Some(KeyCode::Backspace)
    } else if same_text(name, "escape") || same_text(name, "esc") {
        Some(KeyCode::Escape)
    } else if same_text(name, "delete") {
        Some(KeyCode::Delete)
    } else if same_text(name, "home") {
        Some(KeyCode::Home)
    } else if same_text(name, "end") {
        Some(KeyCode::End)
    } else if same_text(name, "pageup") || same_text(name, "page_up") {
        Some(KeyCode::PageUp)
    } else if same_text(name, "pagedown") || same_text(name, "page_down") {
        Some(KeyCode::PageDown)
    } else if same_text(name, "equal") || same_text(name, "=") || same_text(name, "plus") || same_text(name, "+") {
        Some(KeyCode::Equal)
    } else if same_text(name, "minus") || same_text(name, "-") {
        Some(KeyCode::Minus)
    } else if same_text(name, "numpadadd") || same_text(name, "numpad_add") {
        Some(KeyCode::NumpadAdd)
    } else if same_text(name, "numpadsubtract") || same_text(name, "numpad_subtract") {
        Some(KeyCode::NumpadSubtract)
    } else {
        None
    }
}

/// The key that a text spells.
pub open spec fn key_spelled(text: Seq<char>) -> Option<KeyCode> {
    key_named(lowered(trimmed(text)))
}

/// Reads a key name, ignoring case and surrounding whitespace.
pub fn parse_key_code(key: &str) -> (key_code: Option<KeyCode>)
    ensures
        key_code == key_named(lowered(trimmed(key@))),
        key_code == key_spelled(key@),
{
    let name: Vec<char> = normalized_name(chars_of(key).as_slice());
    named_key(name.as_slice())
}

/// The control bytes and the names of the letter keys follow the alphabet.
pub proof fn letter_keys_follow_the_alphabet(position: int)
    requires
        0 <= position < 26,
    ensures
        ({
            let key = seq![
            KeyCode::KeyA,
            KeyCode::KeyB,
            KeyCode::KeyC,
            KeyCode::KeyD,
            KeyCode::KeyE,
            KeyCode::KeyF,
            KeyCode::KeyG,
            KeyCode::KeyH,
            KeyCode::KeyI,
            KeyCode::KeyJ,
            KeyCode::KeyK,
            KeyCode::KeyL,
            KeyCode::KeyM,
            KeyCode::KeyN,
            KeyCode::KeyO,
            KeyCode::KeyP,
            KeyCode::KeyQ,
            KeyCode::KeyR,
            KeyCode::KeyS,
            KeyCode::KeyT,
            KeyCode::KeyU,
            KeyCode::KeyV,
            KeyCode::KeyW,
            KeyCode::KeyX,
            KeyCode::KeyY,
            KeyCode::KeyZ,
            ][position];
            &&& ctrl_byte(key) == Some((position + 1) as u8)
            &&& key_named(seq![(0x61 + position) as u8 as char]) == Some(key)
        }),
{
    reveal_strlit("a");
    reveal_strlit("b");
    reveal_strlit("c");
    reveal_strlit("d");
    reveal_strlit("e");
    reveal_strlit("f");
    reveal_strlit("g");
    reveal_strlit("h");
    reveal_strlit("i");
    reveal_strlit("j");
    reveal_strlit("k");
    reveal_strlit("l");
    reveal_strlit("m");
    reveal_strlit("n");
    reveal_strlit("o");
    reveal_strlit("p");
    reveal_strlit("q");
    reveal_strlit("r");
    reveal_strlit("s");
    reveal_strlit("t");
    reveal_strlit("u");
    reveal_strlit("v");
    reveal_strlit("w");
    reveal_strlit("x");
    reveal_strlit("y");
    reveal_strlit("z");
    let name = seq![(0x61 + position) as u8 as char];
    assert(name.len() == 1);
    assert(name[0] == (0x61 + position) as u8 as char);
    assert(position == 0 ==> name =~= "a"@);
    assert(position == 1 ==> name =~= "b"@);
    assert(position == 2 ==> name =~= "c"@);
    assert(position == 3 ==> name =~= "d"@);
    assert(position == 4 ==> name =~= "e"@);
    assert(position == 5 ==> name =~= "f"@);
    assert(position == 6 ==> name =~= "g"@);
    assert(position == 7 ==> name =~= "h"@);
    assert(position == 8 ==> name =~= "i"@);
    assert(position == 9 ==> name =~= "j"@);
    assert(position == 10 ==> name =~= "k"@);
    assert(position == 11 ==> name =~= "l"@);
    assert(position == 12 ==> name =~= "m"@);
    assert(position == 13 ==> name =~= "n"@);
    assert(position == 14 ==> name =~= "o"@);
    assert(position == 15 ==> name =~= "p"@);
    assert(position == 16 ==> name =~= "q"@);
    assert(position == 17 ==> name =~= "r"@);
    assert(position == 18 ==> name =~= "s"@);
    assert(position == 19 ==> name =~= "t"@);
    assert(position == 20 ==> name =~= "u"@);
    assert(position == 21 ==> name =~= "v"@);
    assert(position == 22 ==> name =~= "w"@);
    assert(position == 23 ==> name =~= "x"@);
    assert(position == 24 ==> name =~= "y"@);
    assert(position == 25 ==> name =~= "z"@);
}

/// The digit keys are named after their digits.
pub proof fn digit_keys_are_named_after_digits(digit: int)
    requires
        0 <= digit < 10,
    ensures
        key_named(seq![(0x30 + digit) as u8 as char]) == Some(
            seq![
            KeyCode::Digit0,
            KeyCode::Digit1,
            KeyCode::Digit2,
            KeyCode::Digit3,
            KeyCode::Digit4,
            KeyCode::Digit5,
            KeyCode::Digit6,
            KeyCode::Digit7,
            KeyCode::Digit8,
            KeyCode::Digit9,
            ][digit],
        ),
{
    reveal_strlit("0");
    reveal_strlit("1");
    reveal_strlit("2");
    reveal_strlit("3");
    reveal_strlit("4");
    reveal_strlit("5");
    reveal_strlit("6");
    reveal_strlit("7");
    reveal_strlit("8");
    reveal_strlit("9");
    reveal_strlit("a");
    reveal_strlit("b");
    reveal_strlit("c");
    reveal_strlit("d");
    reveal_strlit("e");
    reveal_strlit("f");
    reveal_strlit("g");
    reveal_strlit("h");
    reveal_strlit("i");
    reveal_strlit("j");
    reveal_strlit("k");
    reveal_strlit("l");
    reveal_strlit("m");
    reveal_strlit("n");
    reveal_strlit("o");
    reveal_strlit("p");
    reveal_strlit("q");
    reveal_strlit("r");
    reveal_strlit("s");
    reveal_strlit("t");
    reveal_strlit("u");
    reveal_strlit("v");
    reveal_strlit("w");
    reveal_strlit("x");
    reveal_strlit("y");
    reveal_strlit("z");
    let name = seq![(0x30 + digit) as u8 as char];
    assert(name.len() == 1);
    assert(name[0] == (0x30 + digit) as u8 as char);
    assert(digit == 0 ==> name =~= "0"@);
    assert(digit == 1 ==> name =~= "1"@);
    assert(digit == 2 ==> name =~= "2"@);
    assert(digit == 3 ==> name =~= "3"@);
    assert(digit == 4 ==> name =~= "4"@);
    assert(digit == 5 ==> name =~= "5"@);
    assert(digit == 6 ==> name =~= "6"@);
    assert(digit == 7 ==> name =~= "7"@);
    assert(digit == 8 ==> name =~= "8"@);
    assert(digit == 9 ==> name =~= "9"@);
}

/// A key has these names, and no others.
pub proof fn keys_are_found_by_name(name: Seq<char>, key: KeyCode)
    ensures
        key_named(name) == Some(key) <==> match key {
            KeyCode::KeyA => name == "a"@,
            KeyCode::KeyB => name == "b"@,
            KeyCode::KeyC => name == "c"@,
            KeyCode::KeyD => name == "d"@,
            KeyCode::KeyE => name == "e"@,
            KeyCode::KeyF => name == "f"@,
            KeyCode::KeyG => name == "g"@,
            KeyCode::KeyH => name == "h"@,
            KeyCode::KeyI => name == "i"@,
            KeyCode::KeyJ => name == "j"@,
            KeyCode::KeyK => name == "k"@,
            KeyCode::KeyL => name == "l"@,
            KeyCode::KeyM => name == "m"@,
            KeyCode::KeyN => name == "n"@,
            KeyCode::KeyO => name == "o"@,
            KeyCode::KeyP => name == "p"@,
            KeyCode::KeyQ => name == "q"@,
            KeyCode::KeyR => name == "r"@,
            KeyCode::KeyS => name == "s"@,
            KeyCode::KeyT => name == "t"@,
            KeyCode::KeyU => name == "u"@,
            KeyCode::KeyV => name == "v"@,
            KeyCode::KeyW => name == "w"@,
            KeyCode::KeyX => name == "x"@,
            KeyCode::KeyY => name == "y"@,
            KeyCode::KeyZ => name == "z"@,
            KeyCode::Digit0 => name == "0"@,
            KeyCode::Digit1 => name == "1"@,
            KeyCode::Digit2 => name == "2"@,
            KeyCode::Digit3 => name == "3"@,
            KeyCode::Digit4 => name == "4"@,
            KeyCode::Digit5 => name == "5"@,
            KeyCode::Digit6 => name == "6"@,
            KeyCode::Digit7 => name == "7"@,
            KeyCode::Digit8 => name == "8"@,
            KeyCode::Digit9 => name == "9"@,
            KeyCode::F1 => name == "f1"@,
            KeyCode::F2 => name == "f2"@,
            KeyCode::F3 => name == "f3"@,
            KeyCode::F4 => name == "f4"@,
            KeyCode::F5 => name == "f5"@,
            KeyCode::F6 => name == "f6"@,
            KeyCode::F7 => name == "f7"@,
            KeyCode::F8 => name == "f8"@,
            KeyCode::F9 => name == "f9"@,
            KeyCode::F10 => name == "f10"@,
            KeyCode::F11 => name == "f11"@,
            KeyCode::F12 => name == "f12"@,
            KeyCode::ArrowUp => name == "up"@,
            KeyCode::ArrowDown => name == "down"@,
            KeyCode::ArrowLeft => name == "left"@,
            KeyCode::ArrowRight => name == "right"@,
            KeyCode::Enter => name == "enter"@,
            KeyCode::Tab => name == "tab"@,
            KeyCode::Space => name == "space"@,
            KeyCode::Backspace => name == "backspace"@,
            KeyCode::Escape => name == "escape"@ || name == "esc"@,
            KeyCode::Delete => name == "delete"@,
            KeyCode::Home => name == "home"@,
            KeyCode::End => name == "end"@,
            KeyCode::PageUp => name == "pageup"@ || name == "page_up"@,
            KeyCode::PageDown => name == "pagedown"@ || name == "page_down"@,
            KeyCode::Equal => name == "equal"@ || name == "="@ || name == "plus"@ || name == "+"@,
            KeyCode::Minus => name == "minus"@ || name == "-"@,
            KeyCode::NumpadAdd => name == "numpadadd"@ || name == "numpad_add"@,
            KeyCode::NumpadSubtract => name == "numpadsubtract"@ || name == "numpad_subtract"@,
            _ => false,
        },
{
    reveal_strlit("a");
    reveal_strlit("b");
    reveal_strlit("c");
    reveal_strlit("d");
    reveal_strlit("e");
    reveal_strlit("f");
    reveal_strlit("g");
    reveal_strlit("h");
    reveal_strlit("i");
    reveal_strlit("j");
    reveal_strlit("k");
    reveal_strlit("l");
    reveal_strlit("m");
    reveal_strlit("n");
    reveal_strlit("o");
    reveal_strlit("p");
    reveal_strlit("q");
    reveal_strlit("r");
    reveal_strlit("s");
    reveal_strlit("t");
    reveal_strlit("u");
    reveal_strlit("v");
    reveal_strlit("w");
    reveal_strlit("x");
    reveal_strlit("y");
    reveal_strlit("z");
    reveal_strlit("0");
    reveal_strlit("1");
    reveal_strlit("2");
    reveal_strlit("3");
    reveal_strlit("4");
    reveal_strlit("5");
    reveal_strlit("6");
    reveal_strlit("7");
    reveal_strlit("8");
    reveal_strlit("9");
    reveal_strlit("f1");
    reveal_strlit("f2");
    reveal_strlit("f3");
    reveal_strlit("f4");
    reveal_strlit("f5");
    reveal_strlit("f6");
    reveal_strlit("f7");
    reveal_strlit("f8");
    reveal_strlit("f9");
    reveal_strlit("f10");
    reveal_strlit("f11");
    reveal_strlit("f12");
    reveal_strlit("up");
    reveal_strlit("down");
    reveal_strlit("left");
    reveal_strlit("right");
    reveal_strlit("enter");
    reveal_strlit("tab");
    reveal_strlit("space");
    reveal_strlit("backspace");
    reveal_strlit("escape");
    reveal_strlit("esc");
    reveal_strlit("delete");
    reveal_strlit("home");
    reveal_strlit("end");
    reveal_strlit("pageup");
    reveal_strlit("page_up");
    reveal_strlit("pagedown");
    reveal_strlit("page_down");
    reveal_strlit("equal");
    reveal_strlit("=");
    reveal_strlit("plus");
    reveal_strlit("+");
    reveal_strlit("minus");
    reveal_strlit("-");
    reveal_strlit("numpadadd");
    reveal_strlit("numpad_add");
    reveal_strlit("numpadsubtract");
    reveal_strlit("numpad_subtract");
    assert(name == "a"@ ==> name.len() == 1 && name[0] == 'a');
    assert(name == "b"@ ==> name.len() == 1 && name[0] == 'b');
    assert(name == "c"@ ==> name.len() == 1 && name[0] == 'c');
    assert(name == "d"@ ==> name.len() == 1 && name[0] == 'd');
    assert(name == "e"@ ==> name.len() == 1 && name[0] == 'e');
    assert(name == "f"@ ==> name.len() == 1 && name[0] == 'f');
    assert(name == "g"@ ==> name.len() == 1 && name[0] == 'g');
    assert(name == "h"@ ==> name.len() == 1 && name[0] == 'h');
    assert(name == "i"@ ==> name.len() == 1 && name[0] == 'i');
    assert(name == "j"@ ==> name.len() == 1 && name[0] == 'j');
    assert(name == "k"@ ==> name.len() == 1 && name[0] == 'k');
    assert(name == "l"@ ==> name.len() == 1 && name[0] == 'l');
    assert(name == "m"@ ==> name.len() == 1 && name[0] == 'm');
    assert(name == "n"@ ==> name.len() == 1 && name[0] == 'n');
    assert(name == "o"@ ==> name.len() == 1 && name[0] == 'o');
    assert(name == "p"@ ==> name.len() == 1 && name[0] == 'p');
    assert(name == "q"@ ==> name.len() == 1 && name[0] == 'q');
    assert(name == "r"@ ==> name.len() == 1 && name[0] == 'r');
    assert(name == "s"@ ==> name.len() == 1 && name[0] == 's');
    assert(name == "t"@ ==> name.len() == 1 && name[0] == 't');
    assert(name == "u"@ ==> name.len() == 1 && name[0] == 'u');
    assert(name == "v"@ ==> name.len() == 1 && name[0] == 'v');
    assert(name == "w"@ ==> name.len() == 1 && name[0] == 'w');
    assert(name == "x"@ ==> name.len() == 1 && name[0] == 'x');
    assert(name == "y"@ ==> name.len() == 1 && name[0] == 'y');
    assert(name == "z"@ ==> name.len() == 1 && name[0] == 'z');
    assert(name == "0"@ ==> name.len() == 1 && name[0] == '0');
    assert(name == "1"@ ==> name.len() == 1 && name[0] == '1');
    assert(name == "2"@ ==> name.len() == 1 && name[0] == '2');
    assert(name == "3"@ ==> name.len() == 1 && name[0] == '3');
    assert(name == "4"@ ==> name.len() == 1 && name[0] == '4');
    assert(name == "5"@ ==> name.len() == 1 && name[0] == '5');
    assert(name == "6"@ ==> name.len() == 1 && name[0] == '6');
    assert(name == "7"@ ==> name.len() == 1 && name[0] == '7');
    assert(name == "8"@ ==> name.len() == 1 && name[0] == '8');
    assert(name == "9"@ ==> name.len() == 1 && name[0] == '9');
    assert(name == "f1"@ ==> name.len() == 2 && name[0] == 'f' && name[1] == '1');
    assert(name == "f2"@ ==> name.len() == 2 && name[0] == 'f' && name[1] == '2');
    assert(name == "f3"@ ==> name.len() == 2 && name[0] == 'f' && name[1] == '3');
    assert(name == "f4"@ ==> name.len() == 2 && name[0] == 'f' && name[1] == '4');
    assert(name == "f5"@ ==> name.len() == 2 && name[0] == 'f' && name[1] == '5');
    assert(name == "f6"@ ==> name.len() == 2 && name[0] == 'f' && name[1] == '6');
    assert(name == "f7"@ ==> name.len() == 2 && name[0] == 'f' && name[1] == '7');
    assert(name == "f8"@ ==> name.len() == 2 && name[0] == 'f' && name[1] == '8');
    assert(name == "f9"@ ==> name.len() == 2 && name[0] == 'f' && name[1] == '9');
    assert(name == "f10"@ ==> name.len() == 3 && name[0] == 'f' && name[1] == '1' && name[2] == '0');
    assert(name == "f11"@ ==> name.len() == 3 && name[0] == 'f' && name[1] == '1' && name[2] == '1');
    assert(name == "f12"@ ==> name.len() == 3 && name[0] == 'f' && name[1] == '1' && name[2] == '2');
    assert(name == "up"@ ==> name.len() == 2 && name[0] == 'u' && name[1] == 'p');
    assert(name == "down"@ ==> name.len() == 4 && name[0] == 'd' && name[1] == 'o' && name[2] == 'w' && name[3] == 'n');
    assert(name == "left"@ ==> name.len() == 4 && name[0] == 'l' && name[1] == 'e' && name[2] == 'f' && name[3] == 't');
    assert(name == "right"@ ==> name.len() == 5 && name[0] == 'r' && name[1] == 'i' && name[2] == 'g' && name[3] == 'h' && name[4] == 't');
    assert(name == "enter"@ ==> name.len() == 5 && name[0] == 'e' && name[1] == 'n' && name[2] == 't' && name[3] == 'e' && name[4] == 'r');
    assert(name == "tab"@ ==> name.len() == 3 && name[0] == 't' && name[1] == 'a' && name[2] == 'b');
    assert(name == "space"@ ==> name.len() == 5 && name[0] == 's' && name[1] == 'p' && name[2] == 'a' && name[3] == 'c' && name[4] == 'e');
    assert(name == "backspace"@ ==> name.len() == 9 && name[0] == 'b' && name[1] == 'a' && name[2] == 'c' && name[3] == 'k' && name[4] == 's' && name[5] == 'p' && name[6] == 'a' && name[7] == 'c' && name[8] == 'e');
    assert(name == "escape"@ ==> name.len() == 6 && name[0] == 'e' && name[1] == 's' && name[2] == 'c' && name[3] == 'a' && name[4] == 'p' && name[5] == 'e');
    assert(name == "esc"@ ==> name.len() == 3 && name[0] == 'e' && name[1] == 's' && name[2] == 'c');
    assert(name == "delete"@ ==> name.len() == 6 && name[0] == 'd' && name[1] == 'e' && name[2] == 'l' && name[3] == 'e' && name[4] == 't' && name[5] == 'e');
    assert(name == "home"@ ==> name.len() == 4 && name[0] == 'h' && name[1] == 'o' && name[2] == 'm' && name[3] == 'e');
    assert(name == "end"@ ==> name.len() == 3 && name[0] == 'e' && name[1] == 'n' && name[2] == 'd');
    assert(name == "pageup"@ ==> name.len() == 6 && name[0] == 'p' && name[1] == 'a' && name[2] == 'g' && name[3] == 'e' && name[4] == 'u' && name[5] == 'p');
    assert(name == "page_up"@ ==> name.len() == 7 && name[0] == 'p' && name[1] == 'a' && name[2] == 'g' && name[3] == 'e' && name[4] == '_' && name[5] == 'u' && name[6] == 'p');
    assert(name == "pagedown"@ ==> name.len() == 8 && name[0] == 'p' && name[1] == 'a' && name[2] == 'g' && name[3] == 'e' && name[4] == 'd' && name[5] == 'o' && name[6] == 'w' && name[7] == 'n');
    assert(name == "page_down"@ ==> name.len() == 9 && name[0] == 'p' && name[1] == 'a' && name[2] == 'g' && name[3] == 'e' && name[4] == '_' && name[5] == 'd' && name[6] == 'o' && name[7] == 'w' && name[8] == 'n');
    assert(name == "equal"@ ==> name.len() == 5 && name[0] == 'e' && name[1] == 'q' && name[2] == 'u' && name[3] == 'a' && name[4] == 'l');
    assert(name == "="@ ==> name.len() == 1 && name[0] == '=');
    assert(name == "plus"@ ==> name.len() == 4 && name[0] == 'p' && name[1] == 'l' && name[2] == 'u' && name[3] == 's');
    assert(name == "+"@ ==> name.len() == 1 && name[0] == '+');
    assert(name == "minus"@ ==> name.len() == 5 && name[0] == 'm' && name[1] == 'i' && name[2] == 'n' && name[3] == 'u' && name[4] == 's');
    assert(name == "-"@ ==> name.len() == 1 && name[0] == '-');
    assert(name == "numpadadd"@ ==> name.len() == 9 && name[0] == 'n' && name[1] == 'u' && name[2] == 'm' && name[3] == 'p' && name[4] == 'a' && name[5] == 'd' && name[6] == 'a' && name[7] == 'd' && name[8] == 'd');
    assert(name == "numpad_add"@ ==> name.len() == 10 && name[0] == 'n' && name[1] == 'u' && name[2] == 'm' && name[3] == 'p' && name[4] == 'a' && name[5] == 'd' && name[6] == '_' && name[7] == 'a' && name[8] == 'd' && name[9] == 'd');
    assert(name == "numpadsubtract"@ ==> name.len() == 14 && name[0] == 'n' && name[1] == 'u' && name[2] == 'm' && name[3] == 'p' && name[4] == 'a' && name[5] == 'd' && name[6] == 's' && name[7] == 'u' && name[8] == 'b' && name[9] == 't' && name[10] == 'r' && name[11] == 'a' && name[12] == 'c' && name[13] == 't');
    assert(name == "numpad_subtract"@ ==> name.len() == 15 && name[0] == 'n' && name[1] == 'u' && name[2] == 'm' && name[3] == 'p' && name[4] == 'a' && name[5] == 'd' && name[6] == '_' && name[7] == 's' && name[8] == 'u' && name[9] == 'b' && name[10] == 't' && name[11] == 'r' && name[12] == 'a' && name[13] == 'c' && name[14] == 't');
}

/// Only letter keys have control bytes.
pub proof fn control_bytes_belong_to_letters(key: KeyCode)
    ensures
        ctrl_byte(key) is Some <==> seq![
            KeyCode::KeyA,
            KeyCode::KeyB,
            KeyCode::KeyC,
            KeyCode::KeyD,
            KeyCode::KeyE,
            KeyCode::KeyF,
            KeyCode::KeyG,
            KeyCode::KeyH,
            KeyCode::KeyI,
            KeyCode::KeyJ,
            KeyCode::KeyK,
            KeyCode::KeyL,
            KeyCode::KeyM,
            KeyCode::KeyN,
            KeyCode::KeyO,
            KeyCode::KeyP,
            KeyCode::KeyQ,
            KeyCode::KeyR,
            KeyCode::KeyS,
            KeyCode::KeyT,
            KeyCode::KeyU,
            KeyCode::KeyV,
            KeyCode::KeyW,
            KeyCode::KeyX,
            KeyCode::KeyY,
            KeyCode::KeyZ,
        ].contains(key),
{
    let letters = seq![
            KeyCode::KeyA,
            KeyCode::KeyB,
            KeyCode::KeyC,
            KeyCode::KeyD,
            KeyCode::KeyE,
            KeyCode::KeyF,
            KeyCode::KeyG,
            KeyCode::KeyH,
            KeyCode::KeyI,
            KeyCode::KeyJ,
            KeyCode::KeyK,
            KeyCode::KeyL,
            KeyCode::KeyM,
            KeyCode::KeyN,
            KeyCode::KeyO,
            KeyCode::KeyP,
            KeyCode::KeyQ,
            KeyCode::KeyR,
            KeyCode::KeyS,
            KeyCode::KeyT,
            KeyCode::KeyU,
            KeyCode::KeyV,
            KeyCode::KeyW,
            KeyCode::KeyX,
            KeyCode::KeyY,
            KeyCode::KeyZ,
    ];
    if let Some(byte) = ctrl_byte(key) {
        assert(letters[byte as int - 1] == key);
    }
}

/// A navigation key is found by its physical key and by its logical key alike,
/// and no other key is one.
pub proof fn navigation_keys_are_recognized(key_code: KeyCode, logical_key: Key)
    ensures
        physical_navigation(key_code) == (match key_code {
            KeyCode::ArrowUp => logical_navigation(Key::ArrowUp),
            KeyCode::ArrowDown => logical_navigation(Key::ArrowDown),
            KeyCode::ArrowLeft => logical_navigation(Key::ArrowLeft),
            KeyCode::ArrowRight => logical_navigation(Key::ArrowRight),
            KeyCode::Home => logical_navigation(Key::Home),
            KeyCode::End => logical_navigation(Key::End),
            KeyCode::PageUp => logical_navigation(Key::PageUp),
            KeyCode::PageDown => logical_navigation(Key::PageDown),
            KeyCode::Insert => logical_navigation(Key::Insert),
            KeyCode::Delete => logical_navigation(Key::Delete),
            _ => None,
        }),
        physical_navigation(key_code) matches Some(key) ==> navigation_code(key) == key_code,
        logical_navigation(logical_key) matches Some(key) ==> physical_navigation(
            navigation_code(key),
        ) == Some(key),
        logical_navigation(Key::ArrowUp) == Some(NavigationKey::ArrowUp),
        logical_navigation(Key::ArrowDown) == Some(NavigationKey::ArrowDown),
        logical_navigation(Key::ArrowLeft) == Some(NavigationKey::ArrowLeft),
        logical_navigation(Key::ArrowRight) == Some(NavigationKey::ArrowRight),
        logical_navigation(Key::Home) == Some(NavigationKey::Home),
        logical_navigation(Key::End) == Some(NavigationKey::End),
        logical_navigation(Key::PageUp) == Some(NavigationKey::PageUp),
        logical_navigation(Key::PageDown) == Some(NavigationKey::PageDown),
        logical_navigation(Key::Insert) == Some(NavigationKey::Insert),
        logical_navigation(Key::Delete) == Some(NavigationKey::Delete),
        logical_key is Character ==> logical_navigation(logical_key) is None,
        logical_key is Other ==> logical_navigation(logical_key) is None,
{
}

/// The spelling of a key ignores whitespace around it, and the case of its
/// letters.
pub proof fn key_spelling_ignores_case_and_space(
    before: Seq<char>,
    text: Seq<char>,
    other: Seq<char>,
    after: Seq<char>,
)
    requires
        forall|i: int| 0 <= i < before.len() ==> is_space(#[trigger] before[i]),
        forall|i: int| 0 <= i < after.len() ==> is_space(#[trigger] after[i]),
        text.len() > 0,
        !is_space(text.first()),
        !is_space(text.last()),
        other.len() == text.len(),
        forall|i: int|
            0 <= i < text.len() ==> {
                ||| #[trigger] other[i] == text[i]
                ||| 65 <= text[i] as u32 <= 90 && other[i] as u32 == text[i] as u32 + 32
                ||| 97 <= text[i] as u32 <= 122 && other[i] as u32 == text[i] as u32 - 32
            },
    ensures
        key_spelled(before + text + after) == key_named(lowered(other)),
{
    trimming_ignores_surrounding_space(before, text, after);
    assert(trimmed(text) == text);
    assert forall|i: int| 0 <= i < text.len() implies #[trigger] lowered(text)[i] == lowered(
        other,
    )[i] by {
        lowercase_maps_letters_in_order(text[i]);
        lowercase_maps_letters_in_order(other[i]);
        assert(other[i] == other[i]);
        lemma_same_scalar(lower(text[i]), lower(other[i]));
    }
    assert(lowered(text) =~= lowered(other));
}

proof fn lemma_same_scalar(left: char, right: char)
    ensures
        left as u32 == right as u32 ==> left == right,
{
}

} // verus!
