//! Translation of keyboard events into terminal input.

use vstd::prelude::*;
use vstd::string::*;
use vstd::utf8::*;

use crate::bindings::BindingModifiers;
use crate::keys::{
    ctrl_byte, ctrl_keycode_byte, letter_keys_follow_the_alphabet, logical_navigation,
    modifier_key, physical_navigation, Key, KeyCode, NavigationKey,
};
use crate::numbers::{decimal, push_decimal};
use crate::sequences::lemma_push_holds;

verus! {

/// The modifier code of a control sequence: one, plus one for Shift, two for
/// Alt and four for Control.
pub open spec fn modifier_code(ctrl: bool, alt: bool, shift: bool) -> nat {
    (1 + (if shift {
        1int
    } else {
        0
    }) + (if alt {
        2int
    } else {
        0
    }) + (if ctrl {
        4int
    } else {
        0
    })) as nat
}

/// Computes the modifier code of a control sequence.
fn compute_modifier_code(ctrl: bool, alt: bool, shift: bool) -> (code: u8)
    ensures
        code == modifier_code(ctrl, alt, shift),
        1 <= code <= 8,
{
    let mut code: u8 = 1;
    if shift {
        code = code + 1;
    }
    if alt {
        code = code + 2;
    }
    if ctrl {
        code = code + 4;
    }
    code
}

/// The final letter of the keys that have one.
pub open spec fn navigation_letter(key: NavigationKey) -> Option<u8> {
    match key {
        NavigationKey::ArrowUp => Some(0x41),
        NavigationKey::ArrowDown => Some(0x42),
        NavigationKey::ArrowRight => Some(0x43),
        NavigationKey::ArrowLeft => Some(0x44),
        NavigationKey::Home => Some(0x48),
        NavigationKey::End => Some(0x46),
        _ => None,
    }
}

/// The number before the tilde of the keys that have one when no modifier is
/// held.
pub open spec fn navigation_number(key: NavigationKey) -> Option<u8> {
    match key {
        NavigationKey::Home => Some(0x31),
        NavigationKey::Insert => Some(0x32),
        NavigationKey::Delete => Some(0x33),
        NavigationKey::End => Some(0x34),
        NavigationKey::PageUp => Some(0x35),
        NavigationKey::PageDown => Some(0x36),
        _ => None,
    }
}

/// The bytes that a navigation key sends.
pub open spec fn navigation_bytes(
    key: NavigationKey,
    ctrl: bool,
    alt: bool,
    shift: bool,
    application_cursor: bool,
) -> Seq<u8> {
    let code = (0x30 + modifier_code(ctrl, alt, shift)) as u8;
    if ctrl || alt || shift {
        match navigation_letter(key) {
            // CSI 1 ; modifiers letter
            Some(letter) => seq![0x1bu8, 0x5b, 0x31, 0x3b, code, letter],
            // CSI number ; modifiers ~
            None => seq![0x1bu8, 0x5b, navigation_number(key)->0, 0x3b, code, 0x7e],
        }
    } else if application_cursor && navigation_letter(key) is Some {
        // SS3 letter
        seq![0x1bu8, 0x4f, navigation_letter(key)->0]
    } else {
        match navigation_number(key) {
            // CSI number ~
            Some(number) => seq![0x1bu8, 0x5b, number, 0x7e],
            // CSI letter
            None => seq![0x1bu8, 0x5b, navigation_letter(key)->0],
        }
    }
}

impl NavigationKey {
    /// The final letter of the key, if it has one.
    fn letter(self) -> (letter: Option<u8>)
        ensures
            letter == navigation_letter(self),
    {
        match self {
            NavigationKey::ArrowUp => Some(0x41),
            NavigationKey::ArrowDown => Some(0x42),
            NavigationKey::ArrowRight => Some(0x43),
            NavigationKey::ArrowLeft => Some(0x44),
            NavigationKey::Home => Some(0x48),
            NavigationKey::End => Some(0x46),
            _ => None,
        }
    }

    /// The number before the tilde of the key, if it has one.
    fn number(self) -> (number: Option<u8>)
        ensures
            number == navigation_number(self),
    {
        match self {
            NavigationKey::Home => Some(0x31),
            NavigationKey::Insert => Some(0x32),
            NavigationKey::Delete => Some(0x33),
            NavigationKey::End => Some(0x34),
            NavigationKey::PageUp => Some(0x35),
            NavigationKey::PageDown => Some(0x36),
            _ => None,
        }
    }

    /// Encodes a navigation key as terminal input.
    pub fn encode(
        self,
        ctrl_pressed: bool,
        alt_pressed: bool,
        shift_pressed: bool,
        application_cursor: bool,
    ) -> (bytes: Vec<u8>)
        ensures
            bytes@ == navigation_bytes(
                self,
                ctrl_pressed,
                alt_pressed,
                shift_pressed,
                application_cursor,
            ),
    {
        let code: u8 = 0x30 + compute_modifier_code(ctrl_pressed, alt_pressed, shift_pressed);
        let mut bytes: Vec<u8> = Vec::new();
        bytes.push(0x1b);
        if ctrl_pressed || alt_pressed || shift_pressed {
            bytes.push(0x5b);
            match (self.letter(), self.number()) {
                (Some(letter), _) => {
                    bytes.push(0x31);
                    bytes.push(0x3b);
                    bytes.push(code);
                    bytes.push(letter);
                },
                (None, Some(number)) => {
                    bytes.push(number);
                    bytes.push(0x3b);
                    bytes.push(code);
                    bytes.push(0x7e);
                },
                (None, None) => {},
            }
        } else {
            match (self.letter(), self.number()) {
                (Some(letter), _) if application_cursor => {
                    bytes.push(0x4f);
                    bytes.push(letter);
                },
                (_, Some(number)) => {
                    bytes.push(0x5b);
                    bytes.push(number);
                    bytes.push(0x7e);
                },
                (Some(letter), None) => {
                    bytes.push(0x5b);
                    bytes.push(letter);
                },
                (None, None) => {},
            }
        }
        assert(bytes@ =~= navigation_bytes(
            self,
            ctrl_pressed,
            alt_pressed,
            shift_pressed,
            application_cursor,
        ));
        bytes
    }
}

/// The code point of the special keys that take modifiers in control sequences.
pub open spec fn special_code_point(key_code: KeyCode) -> Option<u32> {
    match key_code {
        KeyCode::Enter | KeyCode::NumpadEnter => Some(13),
        KeyCode::Tab => Some(9),
        KeyCode::Backspace => Some(127),
        KeyCode::Escape => Some(27),
        _ => None,
    }
}

/// The bytes that a special key sends while a modifier is held, if the
/// foreground program asked for an unambiguous encoding: CSI code point ;
/// modifiers u under the Kitty keyboard protocol, and otherwise CSI 27 ;
/// modifiers ; code point ~ under modifyOtherKeys.
pub open spec fn special_bytes(
    key_code: KeyCode,
    ctrl: bool,
    alt: bool,
    shift: bool,
    kitty_disambiguate: bool,
    modify_other_keys: Option<u8>,
) -> Option<Seq<u8>> {
    let code = decimal(modifier_code(ctrl, alt, shift));
    match special_code_point(key_code) {
        Some(point) if ctrl || alt || shift => if kitty_disambiguate {
            Some(seq![0x1bu8, 0x5b] + decimal(point as nat) + seq![0x3bu8] + code + seq![0x75u8])
        } else if modify_other_keys is Some {
            Some(
                seq![0x1bu8, 0x5b, 0x32, 0x37, 0x3b] + code + seq![0x3bu8] + decimal(point as nat)
                    + seq![0x7eu8],
            )
        } else {
            None
        },
        _ => None,
    }
}

/// Encodes a special key with modifiers, if the foreground program asked for an
/// unambiguous encoding.
pub fn encode_modified_special_key(
    key_code: KeyCode,
    ctrl_pressed: bool,
    alt_pressed: bool,
    shift_pressed: bool,
    kitty_disambiguate: bool,
    modify_other_keys: Option<u8>,
) -> (bytes: Option<Vec<u8>>)
    ensures
        match bytes {
            Some(bytes) => special_bytes(
                key_code,
                ctrl_pressed,
                alt_pressed,
                shift_pressed,
                kitty_disambiguate,
                modify_other_keys,
            ) == Some(bytes@),
            None => special_bytes(
                key_code,
                ctrl_pressed,
                alt_pressed,
                shift_pressed,
                kitty_disambiguate,
                modify_other_keys,
            ) is None,
        },
{
    let point: u32 = match key_code {
        KeyCode::Enter | KeyCode::NumpadEnter => 13,
        KeyCode::Tab => 9,
        KeyCode::Backspace => 127,
        KeyCode::Escape => 27,
        _ => return None,
    };
    if !ctrl_pressed && !alt_pressed && !shift_pressed {
        return None;
    }
    let code: u8 = compute_modifier_code(ctrl_pressed, alt_pressed, shift_pressed);
    let mut bytes: Vec<u8> = Vec::new();
    bytes.push(0x1b);
    bytes.push(0x5b);
    if kitty_disambiguate {
        assert(bytes@ =~= seq![0x1bu8, 0x5b]);
        push_decimal(&mut bytes, point);
        bytes.push(0x3b);
        push_decimal(&mut bytes, code as u32);
        bytes.push(0x75);
        assert(bytes@ =~= seq![0x1bu8, 0x5b] + decimal(point as nat) + seq![0x3bu8] + decimal(
            code as nat,
        ) + seq![0x75u8]);
        return Some(bytes);
    }
    if modify_other_keys.is_some() {
        bytes.push(0x32);
        bytes.push(0x37);
        bytes.push(0x3b);
        assert(bytes@ =~= seq![0x1bu8, 0x5b, 0x32, 0x37, 0x3b]);
        push_decimal(&mut bytes, code as u32);
        bytes.push(0x3b);
        push_decimal(&mut bytes, point);
        bytes.push(0x7e);
        assert(bytes@ =~= seq![0x1bu8, 0x5b, 0x32, 0x37, 0x3b] + decimal(code as nat)
            + seq![0x3bu8] + decimal(point as nat) + seq![0x7eu8]);
        return Some(bytes);
    }
    None
}

/// The characters of an optional text.
pub open spec fn text_view(text: Option<&str>) -> Option<Seq<char>> {
    match text {
        Some(text) => Some(text@),
        None => None,
    }
}

/// The text that a key event types: the text of the event, or else the
/// characters of its logical key; nothing where that is empty.
pub open spec fn typed_text(text: Option<Seq<char>>, logical_key: Key) -> Option<Seq<char>> {
    let candidate = match (text, logical_key) {
        (Some(text), _) => Some(text),
        (None, Key::Character(chars)) => Some(chars@),
        _ => None,
    };
    match candidate {
        Some(chars) if chars.len() > 0 => Some(chars),
        _ => None,
    }
}

/// Determines the text to send for a key event.
pub fn printable_text<'a>(text: Option<&'a str>, logical_key: &'a Key) -> (typed: Option<&'a str>)
    ensures
        text_view(typed) == typed_text(text_view(text), *logical_key),
{
    let candidate: Option<&'a str> = match text {
        Some(text) => Some(text),
        None => match logical_key {
            Key::Character(chars) => Some(chars.as_str()),
            _ => None,
        },
    };
    match candidate {
        Some(chars) => if chars.is_empty() {
            None
        } else {
            Some(chars)
        },
        None => None,
    }
}

/// Everything besides the physical key that decides what a key press sends.
pub struct KeyTranslationContext<'a> {
    /// Logical key of the event.
    pub logical_key: &'a Key,
    /// Text of the event.
    pub text: Option<&'a str>,
    /// Whether Control is held.
    pub ctrl_pressed: bool,
    /// Whether the left Alt is held.
    pub alt_pressed: bool,
    /// Whether the right Alt is held.
    pub alt_gr_pressed: bool,
    /// Whether Shift is held.
    pub shift_pressed: bool,
    /// Whether application cursor mode is on.
    pub application_cursor: bool,
    /// Flags of the Kitty keyboard protocol.
    pub kitty_keyboard_flags: u8,
    /// Level of xterm's modifyOtherKeys, if it is on.
    pub modify_other_keys: Option<u8>,
}

/// The held modifiers and keyboard modes that decide what a key press sends.
#[derive(Clone, Copy, PartialEq, Eq, Structural, Debug)]
pub struct KeyModes {
    /// Whether Control is held.
    pub ctrl: bool,
    /// Whether the left Alt is held.
    pub alt: bool,
    /// Whether the right Alt is held.
    pub alt_gr: bool,
    /// Whether Shift is held.
    pub shift: bool,
    /// Whether application cursor mode is on.
    pub application_cursor: bool,
    /// Flags of the Kitty keyboard protocol.
    pub kitty_keyboard_flags: u8,
    /// Level of xterm's modifyOtherKeys, if it is on.
    pub modify_other_keys: Option<u8>,
}

impl<'a> KeyTranslationContext<'a> {
    /// The text that the event types.
    pub open spec fn typed(&self) -> Option<Seq<char>> {
        typed_text(text_view(self.text), *self.logical_key)
    }

    /// The held modifiers and keyboard modes.
    pub open spec fn modes(&self) -> KeyModes {
        KeyModes {
            ctrl: self.ctrl_pressed,
            alt: self.alt_pressed,
            alt_gr: self.alt_gr_pressed,
            shift: self.shift_pressed,
            application_cursor: self.application_cursor,
            kitty_keyboard_flags: self.kitty_keyboard_flags,
            modify_other_keys: self.modify_other_keys,
        }
    }
}

/// The escape byte that comes first while Alt is held.
pub open spec fn alt_prefix(alt: bool) -> Seq<u8> {
    if alt {
        seq![0x1bu8]
    } else {
        Seq::empty()
    }
}

/// What the plain keys and the typed text send.
pub open spec fn plain_bytes(key_code: KeyCode, typed: Option<Seq<char>>) -> Seq<u8> {
    match key_code {
        KeyCode::Enter | KeyCode::NumpadEnter => seq![0x0du8],
        KeyCode::Tab => seq![0x09u8],
        KeyCode::Space => seq![0x20u8],
        KeyCode::Backspace => seq![0x7fu8],
        KeyCode::Escape => seq![0x1bu8],
        _ => match typed {
            Some(text) => encode_utf8(text),
            None => Seq::empty(),
        },
    }
}

/// The bytes that a key press sends. AltGr types text; Control with a letter
/// sends a control byte; special keys with modifiers and navigation keys send
/// control sequences; anything else is sent as it is, after an escape byte while
/// Alt is held.
pub open spec fn key_bytes(
    key_code: KeyCode,
    logical_key: Key,
    typed: Option<Seq<char>>,
    modes: KeyModes,
) -> Seq<u8> {
    // Bit 0 of the Kitty flags asks for disambiguated escape codes.
    let special = special_bytes(
        key_code,
        modes.ctrl,
        modes.alt,
        modes.shift,
        modes.kitty_keyboard_flags & 1 != 0,
        modes.modify_other_keys,
    );
    let navigation = match physical_navigation(key_code) {
        Some(key) => Some(key),
        None => logical_navigation(logical_key),
    };
    if modes.alt_gr && typed is Some {
        encode_utf8(typed->0)
    } else if modes.ctrl && ctrl_byte(key_code) is Some {
        alt_prefix(modes.alt).push(ctrl_byte(key_code)->0)
    } else if special is Some {
        special->0
    } else if navigation is Some {
        navigation_bytes(
            navigation->0,
            modes.ctrl,
            modes.alt,
            modes.shift,
            modes.application_cursor,
        )
    } else {
        alt_prefix(modes.alt) + plain_bytes(key_code, typed)
    }
}

/// Translates a key press into terminal input.
pub fn translate_key(key_code: KeyCode, ctx: KeyTranslationContext<'_>) -> (bytes: Vec<u8>)
    ensures
        bytes@ == key_bytes(key_code, *ctx.logical_key, ctx.typed(), ctx.modes()),
{
    let typed = printable_text(ctx.text, ctx.logical_key);
    let mut bytes: Vec<u8> = Vec::new();
    if ctx.alt_gr_pressed {
        if let Some(text) = typed {
            bytes.extend_from_slice(text.as_bytes());
            return bytes;
        }
    }
    if ctx.ctrl_pressed {
        if let Some(ctrl) = ctrl_keycode_byte(key_code) {
            if ctx.alt_pressed {
                bytes.push(0x1b);
            }
            bytes.push(ctrl);
            assert(bytes@ =~= alt_prefix(ctx.alt_pressed).push(ctrl));
            return bytes;
        }
    }
    let kitty_disambiguate = ctx.kitty_keyboard_flags & 1 != 0;
    if let Some(sequence) = encode_modified_special_key(
        key_code,
        ctx.ctrl_pressed,
        ctx.alt_pressed,
        ctx.shift_pressed,
        kitty_disambiguate,
        ctx.modify_other_keys,
    ) {
        return sequence;
    }
    let navigation_key = match NavigationKey::from_key_code(key_code) {
        Some(key) => Some(key),
        None => NavigationKey::from_logical_key(ctx.logical_key),
    };
    if let Some(key) = navigation_key {
        return key.encode(
            ctx.ctrl_pressed,
            ctx.alt_pressed,
            ctx.shift_pressed,
            ctx.application_cursor,
        );
    }
    if ctx.alt_pressed {
        bytes.push(0x1b);
    }
    match key_code {
        KeyCode::Enter | KeyCode::NumpadEnter => bytes.push(0x0d),
        KeyCode::Tab => bytes.push(0x09),
        KeyCode::Space => bytes.push(0x20),
        KeyCode::Backspace => bytes.push(0x7f),
        KeyCode::Escape => bytes.push(0x1b),
        _ => {
            if let Some(text) = typed {
                bytes.extend_from_slice(text.as_bytes());
            }
        },
    }
    assert(bytes@ =~= alt_prefix(ctx.alt_pressed) + plain_bytes(key_code, ctx.typed()));
    bytes
}

/// A keyboard event.
pub struct KeyEvent {
    /// Physical key.
    pub key_code: KeyCode,
    /// Logical key.
    pub logical_key: Key,
    /// Text that the event types.
    pub text: Option<String>,
    /// Whether the key went down.
    pub pressed: bool,
    /// Whether the press is a repetition of a held key.
    pub repeat: bool,
}

impl KeyEvent {
    /// The text that the event types.
    pub open spec fn typed(&self) -> Option<Seq<char>> {
        typed_text(
            match self.text {
                Some(text) => Some(text@),
                None => None,
            },
            self.logical_key,
        )
    }
}

/// Keyboard modifier state.
#[derive(Clone, Copy, PartialEq, Eq, Structural, Debug)]
pub struct TerminalKeyboard {
    /// Whether Control is held.
    pub ctrl_pressed: bool,
    /// Whether the left Alt is held.
    pub left_alt_pressed: bool,
    /// Whether the right Alt is held.
    pub right_alt_pressed: bool,
    /// Whether Shift is held.
    pub shift_pressed: bool,
    /// Whether Super is held.
    pub super_pressed: bool,
}

impl Default for TerminalKeyboard {
    fn default() -> (keyboard: Self)
        ensures
            keyboard == (TerminalKeyboard {
                ctrl_pressed: false,
                left_alt_pressed: false,
                right_alt_pressed: false,
                shift_pressed: false,
                super_pressed: false,
            }),
    {
        TerminalKeyboard {
            ctrl_pressed: false,
            left_alt_pressed: false,
            right_alt_pressed: false,
            shift_pressed: false,
            super_pressed: false,
        }
    }
}

impl TerminalKeyboard {
    /// The modifiers of bindings that are held. The right Alt is not one.
    pub open spec fn held(self) -> BindingModifiers {
        BindingModifiers {
            control: self.ctrl_pressed,
            alt: self.left_alt_pressed,
            shift: self.shift_pressed,
            super_key: self.super_pressed,
        }
    }

    /// The state after a key went down or up.
    pub open spec fn after(self, key_code: KeyCode, pressed: bool) -> Self {
        match key_code {
            KeyCode::ControlLeft | KeyCode::ControlRight => TerminalKeyboard {
                ctrl_pressed: pressed,
                ..self
            },
            KeyCode::AltLeft => TerminalKeyboard { left_alt_pressed: pressed, ..self },
            KeyCode::AltRight => TerminalKeyboard { right_alt_pressed: pressed, ..self },
            KeyCode::ShiftLeft | KeyCode::ShiftRight => TerminalKeyboard {
                shift_pressed: pressed,
                ..self
            },
            KeyCode::SuperLeft | KeyCode::SuperRight => TerminalKeyboard {
                super_pressed: pressed,
                ..self
            },
            _ => self,
        }
    }

    /// The bytes that an event sends. Modifier keys and releases send nothing.
    pub open spec fn event_bytes(
        self,
        event: KeyEvent,
        application_cursor: bool,
        kitty_keyboard_flags: u8,
        modify_other_keys: Option<u8>,
    ) -> Option<Seq<u8>> {
        if modifier_key(event.key_code) || !event.pressed {
            None
        } else {
            Some(
                key_bytes(
                    event.key_code,
                    event.logical_key,
                    event.typed(),
                    KeyModes {
                        ctrl: self.ctrl_pressed,
                        alt: self.left_alt_pressed,
                        alt_gr: self.right_alt_pressed,
                        shift: self.shift_pressed,
                        application_cursor,
                        kitty_keyboard_flags,
                        modify_other_keys,
                    },
                ),
            )
        }
    }

    /// Returns the modifiers of bindings that are held.
    pub fn modifiers(&self) -> (modifiers: BindingModifiers)
        ensures
            modifiers == self.held(),
    {
        BindingModifiers {
            control: self.ctrl_pressed,
            alt: self.left_alt_pressed,
            shift: self.shift_pressed,
            super_key: self.super_pressed,
        }
    }

    /// Translates a keyboard event into terminal input bytes.
    pub fn handle_event_with_modes(
        &mut self,
        event: &KeyEvent,
        application_cursor: bool,
        kitty_keyboard_flags: u8,
        modify_other_keys: Option<u8>,
    ) -> (bytes: Option<Vec<u8>>)
        ensures
            *final(self) == old(self).after(event.key_code, event.pressed),
            match bytes {
                Some(bytes) => old(self).event_bytes(
                    *event,
                    application_cursor,
                    kitty_keyboard_flags,
                    modify_other_keys,
                ) == Some(bytes@),
                None => old(self).event_bytes(
                    *event,
                    application_cursor,
                    kitty_keyboard_flags,
                    modify_other_keys,
                ) is None,
            },
    {
        match event.key_code {
            KeyCode::ControlLeft | KeyCode::ControlRight => {
                self.ctrl_pressed = event.pressed;
                return None;
            },
            KeyCode::AltLeft => {
                self.left_alt_pressed = event.pressed;
                return None;
            },
            KeyCode::AltRight => {
                self.right_alt_pressed = event.pressed;
                return None;
            },
            KeyCode::ShiftLeft | KeyCode::ShiftRight => {
                self.shift_pressed = event.pressed;
                return None;
            },
            KeyCode::SuperLeft | KeyCode::SuperRight => {
                self.super_pressed = event.pressed;
                return None;
            },
            _ => {},
        }
        if !event.pressed {
            return None;
        }
        let text: Option<&str> = match &event.text {
            Some(text) => Some(text.as_str()),
            None => None,
        };
        Some(
            translate_key(
                event.key_code,
                KeyTranslationContext {
                    logical_key: &event.logical_key,
                    text,
                    ctrl_pressed: self.ctrl_pressed,
                    alt_pressed: self.left_alt_pressed,
                    alt_gr_pressed: self.right_alt_pressed,
                    shift_pressed: self.shift_pressed,
                    application_cursor,
                    kitty_keyboard_flags,
                    modify_other_keys,
                },
            ),
        )
    }
}

/// Tests whether a key is among the held keys.
fn is_held(keys: &[KeyCode], key: KeyCode) -> (held: bool)
    ensures
        held == keys@.contains(key),
{
    let mut i: usize = 0;
    while i < keys.len()
        invariant
            i <= keys.len(),
            forall|k: int| 0 <= k < i ==> #[trigger] keys@[k] != key,
        decreases keys.len() - i,
    {
        if keys[i] == key {
            assert(keys@[i as int] == key);
            return true;
        }
        i = i + 1;
    }
    false
}

/// The modifiers of bindings among some held keys.
pub open spec fn modifiers_among(keys: Seq<KeyCode>) -> BindingModifiers {
    BindingModifiers {
        control: keys.contains(KeyCode::ControlLeft) || keys.contains(KeyCode::ControlRight),
        alt: keys.contains(KeyCode::AltLeft),
        shift: keys.contains(KeyCode::ShiftLeft) || keys.contains(KeyCode::ShiftRight),
        super_key: keys.contains(KeyCode::SuperLeft) || keys.contains(KeyCode::SuperRight),
    }
}

/// Returns the modifiers of bindings among the held keys.
pub fn current_modifiers(keys: &[KeyCode]) -> (modifiers: BindingModifiers)
    ensures
        modifiers == modifiers_among(keys@),
        modifiers.control == (keys@.contains(KeyCode::ControlLeft) || keys@.contains(
            KeyCode::ControlRight,
        )),
        modifiers.alt == keys@.contains(KeyCode::AltLeft),
        modifiers.shift == (keys@.contains(KeyCode::ShiftLeft) || keys@.contains(
            KeyCode::ShiftRight,
        )),
        modifiers.super_key == (keys@.contains(KeyCode::SuperLeft) || keys@.contains(
            KeyCode::SuperRight,
        )),
{
    BindingModifiers {
        control: is_held(keys, KeyCode::ControlLeft) || is_held(keys, KeyCode::ControlRight),
        alt: is_held(keys, KeyCode::AltLeft),
        shift: is_held(keys, KeyCode::ShiftLeft) || is_held(keys, KeyCode::ShiftRight),
        super_key: is_held(keys, KeyCode::SuperLeft) || is_held(keys, KeyCode::SuperRight),
    }
}

/// While a modifier is held, navigation keys do not depend on application cursor
/// mode.
pub proof fn modified_navigation_ignores_application_cursor(
    key: NavigationKey,
    ctrl: bool,
    alt: bool,
    shift: bool,
)
    requires
        ctrl || alt || shift,
    ensures
        navigation_bytes(key, ctrl, alt, shift, true) == navigation_bytes(
            key,
            ctrl,
            alt,
            shift,
            false,
        ),
{
}

/// In one cursor mode, no two navigation keys or modifier combinations send the
/// same bytes.
pub proof fn navigation_keys_are_told_apart(
    left: NavigationKey,
    left_ctrl: bool,
    left_alt: bool,
    left_shift: bool,
    right: NavigationKey,
    right_ctrl: bool,
    right_alt: bool,
    right_shift: bool,
    application_cursor: bool,
)
    requires
        navigation_bytes(left, left_ctrl, left_alt, left_shift, application_cursor)
            == navigation_bytes(right, right_ctrl, right_alt, right_shift, application_cursor),
    ensures
        left == right,
        left_ctrl == right_ctrl,
        left_alt == right_alt,
        left_shift == right_shift,
{
    let a = navigation_bytes(left, left_ctrl, left_alt, left_shift, application_cursor);
    let b = navigation_bytes(right, right_ctrl, right_alt, right_shift, application_cursor);
    assert(a.len() == b.len());
    assert(a[1] == b[1]);
    assert(a[2] == b[2]);
    if a.len() > 4 {
        assert(a[4] == b[4]);
        assert(a[5] == b[5]);
    }
}

/// No two keys have the same control byte.
pub proof fn control_bytes_are_told_apart(left: KeyCode, right: KeyCode)
    requires
        ctrl_byte(left) is Some,
        ctrl_byte(left) == ctrl_byte(right),
    ensures
        left == right,
{
}

/// A keypad key that means a navigation key sends what the dedicated key sends.
pub proof fn keypad_navigation_matches_the_cluster(
    keypad: KeyCode,
    dedicated: KeyCode,
    logical_key: Key,
    modes: KeyModes,
)
    requires
        keypad == KeyCode::Numpad0 || keypad == KeyCode::Other,
        physical_navigation(dedicated) is Some,
        logical_navigation(logical_key) == physical_navigation(dedicated),
    ensures
        key_bytes(keypad, logical_key, None, modes) == key_bytes(
            dedicated,
            logical_key,
            None,
            modes,
        ),
{
}

/// Pressing and releasing a modifier key restores the other modifiers, and sends
/// nothing on the way.
pub proof fn modifiers_are_released(
    keyboard: TerminalKeyboard,
    event: KeyEvent,
    application_cursor: bool,
    flags: u8,
    modify_other_keys: Option<u8>,
)
    requires
        modifier_key(event.key_code),
    ensures
        keyboard.event_bytes(event, application_cursor, flags, modify_other_keys) is None,
        keyboard.after(event.key_code, false) == keyboard ==> keyboard.after(
            event.key_code,
            true,
        ).after(event.key_code, false) == keyboard,
{
}

/// What the navigation keys send, byte by byte. Without modifiers an arrow sends
/// CSI and a letter, and the other keys CSI, a digit and a tilde; in application
/// cursor mode the arrows, Home and End send SS3 and a letter. With modifiers a
/// digit between two and eight tells which: one more than Shift as one, Alt as two
/// and Control as four.
pub proof fn navigation_sequences(
    key: NavigationKey,
    ctrl: bool,
    alt: bool,
    shift: bool,
    application_cursor: bool,
)
    ensures
        !ctrl && !alt && !shift && !application_cursor ==> navigation_bytes(
            key,
            ctrl,
            alt,
            shift,
            application_cursor,
        ) == (match key {
                NavigationKey::ArrowUp => seq![0x1bu8, 0x5b, 0x41],
                NavigationKey::ArrowDown => seq![0x1bu8, 0x5b, 0x42],
                NavigationKey::ArrowRight => seq![0x1bu8, 0x5b, 0x43],
                NavigationKey::ArrowLeft => seq![0x1bu8, 0x5b, 0x44],
                NavigationKey::Home => seq![0x1bu8, 0x5b, 0x31, 0x7e],
                NavigationKey::End => seq![0x1bu8, 0x5b, 0x34, 0x7e],
                NavigationKey::Insert => seq![0x1bu8, 0x5b, 0x32, 0x7e],
                NavigationKey::Delete => seq![0x1bu8, 0x5b, 0x33, 0x7e],
                NavigationKey::PageUp => seq![0x1bu8, 0x5b, 0x35, 0x7e],
                NavigationKey::PageDown => seq![0x1bu8, 0x5b, 0x36, 0x7e],
            }),
        !ctrl && !alt && !shift && application_cursor ==> navigation_bytes(
            key,
            ctrl,
            alt,
            shift,
            application_cursor,
        ) == (match key {
                NavigationKey::ArrowUp => seq![0x1bu8, 0x4f, 0x41],
                NavigationKey::ArrowDown => seq![0x1bu8, 0x4f, 0x42],
                NavigationKey::ArrowRight => seq![0x1bu8, 0x4f, 0x43],
                NavigationKey::ArrowLeft => seq![0x1bu8, 0x4f, 0x44],
                NavigationKey::Home => seq![0x1bu8, 0x4f, 0x48],
                NavigationKey::End => seq![0x1bu8, 0x4f, 0x46],
                NavigationKey::Insert => seq![0x1bu8, 0x5b, 0x32, 0x7e],
                NavigationKey::Delete => seq![0x1bu8, 0x5b, 0x33, 0x7e],
                NavigationKey::PageUp => seq![0x1bu8, 0x5b, 0x35, 0x7e],
                NavigationKey::PageDown => seq![0x1bu8, 0x5b, 0x36, 0x7e],
            }),
        ctrl || alt || shift ==> navigation_bytes(key, ctrl, alt, shift, application_cursor) == ({
            let digit = match (ctrl, alt, shift) {
                (false, false, false) => 0x31u8,
                (false, false, true) => 0x32u8,
                (false, true, false) => 0x33u8,
                (false, true, true) => 0x34u8,
                (true, false, false) => 0x35u8,
                (true, false, true) => 0x36u8,
                (true, true, false) => 0x37u8,
                (true, true, true) => 0x38u8,
            };
            match key {
                NavigationKey::ArrowUp => seq![0x1bu8, 0x5b, 0x31, 0x3b, digit, 0x41],
                NavigationKey::ArrowDown => seq![0x1bu8, 0x5b, 0x31, 0x3b, digit, 0x42],
                NavigationKey::ArrowRight => seq![0x1bu8, 0x5b, 0x31, 0x3b, digit, 0x43],
                NavigationKey::ArrowLeft => seq![0x1bu8, 0x5b, 0x31, 0x3b, digit, 0x44],
                NavigationKey::Home => seq![0x1bu8, 0x5b, 0x31, 0x3b, digit, 0x48],
                NavigationKey::End => seq![0x1bu8, 0x5b, 0x31, 0x3b, digit, 0x46],
                NavigationKey::Insert => seq![0x1bu8, 0x5b, 0x32, 0x3b, digit, 0x7e],
                NavigationKey::Delete => seq![0x1bu8, 0x5b, 0x33, 0x3b, digit, 0x7e],
                NavigationKey::PageUp => seq![0x1bu8, 0x5b, 0x35, 0x3b, digit, 0x7e],
                NavigationKey::PageDown => seq![0x1bu8, 0x5b, 0x36, 0x3b, digit, 0x7e],
            }
        }),
{
}

/// A key press is a navigation key by its physical key, and otherwise by its
/// logical key; it then sends what that key sends, unless AltGr types a text or
/// Control makes a control byte of it.
pub proof fn navigation_presses(
    key_code: KeyCode,
    logical_key: Key,
    typed: Option<Seq<char>>,
    modes: KeyModes,
)
    requires
        !(modes.alt_gr && typed is Some),
        modes.ctrl ==> ctrl_byte(key_code) is None,
        key_code != KeyCode::Enter && key_code != KeyCode::NumpadEnter && key_code != KeyCode::Tab
            && key_code != KeyCode::Backspace && key_code != KeyCode::Escape,
    ensures
        (match key_code {
            KeyCode::ArrowUp => Some(NavigationKey::ArrowUp),
            KeyCode::ArrowDown => Some(NavigationKey::ArrowDown),
            KeyCode::ArrowRight => Some(NavigationKey::ArrowRight),
            KeyCode::ArrowLeft => Some(NavigationKey::ArrowLeft),
            KeyCode::Home => Some(NavigationKey::Home),
            KeyCode::End => Some(NavigationKey::End),
            KeyCode::Insert => Some(NavigationKey::Insert),
            KeyCode::Delete => Some(NavigationKey::Delete),
            KeyCode::PageUp => Some(NavigationKey::PageUp),
            KeyCode::PageDown => Some(NavigationKey::PageDown),
            _ => match logical_key {
            Key::ArrowUp => Some(NavigationKey::ArrowUp),
            Key::ArrowDown => Some(NavigationKey::ArrowDown),
            Key::ArrowRight => Some(NavigationKey::ArrowRight),
            Key::ArrowLeft => Some(NavigationKey::ArrowLeft),
            Key::Home => Some(NavigationKey::Home),
            Key::End => Some(NavigationKey::End),
            Key::Insert => Some(NavigationKey::Insert),
            Key::Delete => Some(NavigationKey::Delete),
            Key::PageUp => Some(NavigationKey::PageUp),
            Key::PageDown => Some(NavigationKey::PageDown),
                _ => None,
            },
        }) matches Some(key) ==> key_bytes(key_code, logical_key, typed, modes)
            == navigation_bytes(
            key,
            modes.ctrl,
            modes.alt,
            modes.shift,
            modes.application_cursor,
        ),
{
}

/// Alt puts an escape byte before what the key sends without it, whether or not
/// the key types text. Left out are AltGr with text, navigation keys, and the
/// keys that have a sequence of their own for modifiers, where it was asked for.
pub proof fn alt_sends_escape_first(
    key_code: KeyCode,
    logical_key: Key,
    typed: Option<Seq<char>>,
    modes: KeyModes,
)
    requires
        !(modes.alt_gr && typed is Some),
        physical_navigation(key_code) is None,
        logical_navigation(logical_key) is None,
        (modes.kitty_keyboard_flags % 2 == 0 && modes.modify_other_keys is None) || (key_code
            != KeyCode::Enter && key_code != KeyCode::NumpadEnter && key_code != KeyCode::Tab
            && key_code != KeyCode::Backspace && key_code != KeyCode::Escape),
    ensures
        key_bytes(key_code, logical_key, typed, KeyModes { alt: true, ..modes }) == seq![0x1bu8]
            + key_bytes(key_code, logical_key, typed, KeyModes { alt: false, ..modes }),
{
    lemma_lowest_bit(modes.kitty_keyboard_flags);
    assert(key_bytes(key_code, logical_key, typed, KeyModes { alt: true, ..modes }) =~= seq![0x1bu8]
        + key_bytes(key_code, logical_key, typed, KeyModes { alt: false, ..modes }));
}

proof fn lemma_lowest_bit(flags: u8)
    ensures
        flags & 1 != 0 <==> flags % 2 == 1,
{
    assert(flags & 1 != 0 <==> flags % 2 == 1) by (bit_vector);
}

/// Typed text is sent in UTF-8, after an escape byte while Alt is held; with AltGr
/// it is sent alone, whatever else is held.
pub proof fn typed_text_is_sent(key_code: KeyCode, logical_key: Key, text: Seq<char>, modes: KeyModes)
    ensures
        modes.alt_gr ==> key_bytes(key_code, logical_key, Some(text), modes) == encode_utf8(text),
        !modes.alt_gr && !(modes.ctrl && ctrl_byte(key_code) is Some) && physical_navigation(
            key_code,
        ) is None && logical_navigation(logical_key) is None && key_code != KeyCode::Enter
            && key_code != KeyCode::NumpadEnter && key_code != KeyCode::Tab && key_code
            != KeyCode::Backspace && key_code != KeyCode::Escape && key_code != KeyCode::Space
            ==> key_bytes(key_code, logical_key, Some(text), modes) == (if modes.alt {
            seq![0x1bu8] + encode_utf8(text)
        } else {
            encode_utf8(text)
        }),
{
    assert(Seq::<u8>::empty() + encode_utf8(text) =~= encode_utf8(text));
}

/// Control with a letter key sends the place of the letter in the alphabet, after
/// an escape byte while Alt is held, whatever else is held.
pub proof fn control_letters_are_sent(
    position: int,
    logical_key: Key,
    typed: Option<Seq<char>>,
    modes: KeyModes,
)
    requires
        0 <= position < 26,
        modes.ctrl,
        !(modes.alt_gr && typed is Some),
    ensures
        ({
            let key = seq![
                KeyCode::KeyA, KeyCode::KeyB, KeyCode::KeyC, KeyCode::KeyD, KeyCode::KeyE, KeyCode::KeyF, KeyCode::KeyG, KeyCode::KeyH, KeyCode::KeyI, KeyCode::KeyJ, KeyCode::KeyK, KeyCode::KeyL, KeyCode::KeyM, KeyCode::KeyN, KeyCode::KeyO, KeyCode::KeyP, KeyCode::KeyQ, KeyCode::KeyR, KeyCode::KeyS, KeyCode::KeyT, KeyCode::KeyU, KeyCode::KeyV, KeyCode::KeyW, KeyCode::KeyX, KeyCode::KeyY, KeyCode::KeyZ,
            ][position];
            key_bytes(key, logical_key, typed, modes) == (if modes.alt {
                seq![0x1bu8, (position + 1) as u8]
            } else {
                seq![(position + 1) as u8]
            })
        }),
{
    let key = seq![
        KeyCode::KeyA, KeyCode::KeyB, KeyCode::KeyC, KeyCode::KeyD, KeyCode::KeyE, KeyCode::KeyF, KeyCode::KeyG, KeyCode::KeyH, KeyCode::KeyI, KeyCode::KeyJ, KeyCode::KeyK, KeyCode::KeyL, KeyCode::KeyM, KeyCode::KeyN, KeyCode::KeyO, KeyCode::KeyP, KeyCode::KeyQ, KeyCode::KeyR, KeyCode::KeyS, KeyCode::KeyT, KeyCode::KeyU, KeyCode::KeyV, KeyCode::KeyW, KeyCode::KeyX, KeyCode::KeyY, KeyCode::KeyZ,
    ][position];
    letter_keys_follow_the_alphabet(position);
    assert(ctrl_byte(key) == Some((position + 1) as u8));
    assert(alt_prefix(modes.alt).push((position + 1) as u8) =~= (if modes.alt {
        seq![0x1bu8, (position + 1) as u8]
    } else {
        seq![(position + 1) as u8]
    }));
}

/// Enter, Tab, Space, Backspace and Escape send a byte of their own, whatever text
/// they type: carriage return, tab, space, delete and escape. Modifiers leave it,
/// but for the escape byte of Alt, where no other encoding was asked for.
pub proof fn editing_keys_send_one_byte(
    key_code: KeyCode,
    logical_key: Key,
    typed: Option<Seq<char>>,
    modes: KeyModes,
)
    requires
        !(modes.alt_gr && typed is Some),
        logical_navigation(logical_key) is None,
        !(modes.ctrl || modes.alt || modes.shift) || (modes.kitty_keyboard_flags % 2 == 0
            && modes.modify_other_keys is None) || key_code == KeyCode::Space,
        key_code == KeyCode::Enter || key_code == KeyCode::NumpadEnter || key_code == KeyCode::Tab
            || key_code == KeyCode::Space || key_code == KeyCode::Backspace || key_code
            == KeyCode::Escape,
    ensures
        key_bytes(key_code, logical_key, typed, modes).len() == (if modes.alt {
            2nat
        } else {
            1nat
        }),
        modes.alt ==> key_bytes(key_code, logical_key, typed, modes)[0] == 27,
        key_bytes(key_code, logical_key, typed, modes).last() == (match key_code {
            KeyCode::Tab => 9u8,
            KeyCode::Space => 32u8,
            KeyCode::Backspace => 127u8,
            KeyCode::Escape => 27u8,
            _ => 13u8,
        }),
{
    lemma_lowest_bit(modes.kitty_keyboard_flags);
}

/// Enter, Tab, Backspace and Escape with modifiers, byte by byte: where the Kitty
/// protocol asks for disambiguation, CSI, the number of the key, a semicolon, the
/// digit of the modifiers and `u`; otherwise under modifyOtherKeys CSI 27, a
/// semicolon, that digit, a semicolon, the number and a tilde.
pub proof fn modified_editing_keys(
    key_code: KeyCode,
    logical_key: Key,
    typed: Option<Seq<char>>,
    modes: KeyModes,
)
    requires
        !(modes.alt_gr && typed is Some),
        modes.ctrl || modes.alt || modes.shift,
        modes.kitty_keyboard_flags % 2 == 1 || modes.modify_other_keys is Some,
        key_code == KeyCode::Enter || key_code == KeyCode::NumpadEnter || key_code == KeyCode::Tab
            || key_code == KeyCode::Backspace || key_code == KeyCode::Escape,
    ensures
        ({
            let digit = (0x31 + (if modes.shift {
                1int
            } else {
                0
            }) + (if modes.alt {
                2int
            } else {
                0
            }) + (if modes.ctrl {
                4int
            } else {
                0
            })) as u8;
            let number = match key_code {
                KeyCode::Tab => seq![0x39u8],
                KeyCode::Backspace => seq![0x31u8, 0x32, 0x37],
                KeyCode::Escape => seq![0x32u8, 0x37],
                _ => seq![0x31u8, 0x33],
            };
            key_bytes(key_code, logical_key, typed, modes) == (if modes.kitty_keyboard_flags % 2
                == 1 {
                seq![0x1bu8, 0x5b] + number + seq![0x3bu8, digit, 0x75]
            } else {
                seq![0x1bu8, 0x5b, 0x32, 0x37, 0x3b, digit, 0x3b] + number + seq![0x7eu8]
            })
        }),
{
    lemma_lowest_bit(modes.kitty_keyboard_flags);
    lemma_key_numbers();
    let code = modifier_code(modes.ctrl, modes.alt, modes.shift);
    lemma_one_digit(code);
    let digit = (0x30 + code) as u8;
    let number = match key_code {
        KeyCode::Tab => seq![0x39u8],
        KeyCode::Backspace => seq![0x31u8, 0x32, 0x37],
        KeyCode::Escape => seq![0x32u8, 0x37],
        _ => seq![0x31u8, 0x33],
    };
    lemma_joined_bytes(number, digit);
    assert(special_bytes(
        key_code,
        modes.ctrl,
        modes.alt,
        modes.shift,
        modes.kitty_keyboard_flags & 1 != 0,
        modes.modify_other_keys,
    ) is Some);
}

proof fn lemma_key_numbers()
    ensures
        decimal(9) == seq![0x39u8],
        decimal(13) == seq![0x31u8, 0x33],
        decimal(27) == seq![0x32u8, 0x37],
        decimal(127) == seq![0x31u8, 0x32, 0x37],
{
    reveal_with_fuel(decimal, 4);
    assert(decimal(9) =~= seq![0x39u8]);
    assert(decimal(13) =~= seq![0x31u8, 0x33]);
    assert(decimal(27) =~= seq![0x32u8, 0x37]);
    assert(decimal(127) =~= seq![0x31u8, 0x32, 0x37]);
}

proof fn lemma_one_digit(n: nat)
    requires
        n < 10,
    ensures
        decimal(n) == seq![(0x30 + n) as u8],
{
}

proof fn lemma_joined_bytes(number: Seq<u8>, digit: u8)
    ensures
        seq![0x1bu8, 0x5b] + number + seq![0x3bu8] + seq![digit] + seq![0x75u8] == seq![0x1bu8, 0x5b]
            + number + seq![0x3bu8, digit, 0x75],
        seq![0x1bu8, 0x5b, 0x32, 0x37, 0x3b] + seq![digit] + seq![0x3bu8] + number + seq![0x7eu8]
            == seq![0x1bu8, 0x5b, 0x32, 0x37, 0x3b, digit, 0x3b] + number + seq![0x7eu8],
{
    assert(seq![0x1bu8, 0x5b] + number + seq![0x3bu8] + seq![digit] + seq![0x75u8] =~= seq![
        0x1bu8,
        0x5b,
    ] + number + seq![0x3bu8, digit, 0x75]);
    assert(seq![0x1bu8, 0x5b, 0x32, 0x37, 0x3b] + seq![digit] + seq![0x3bu8] + number + seq![
        0x7eu8,
    ] =~= seq![0x1bu8, 0x5b, 0x32, 0x37, 0x3b, digit, 0x3b] + number + seq![0x7eu8]);
}

/// A key that neither types text nor has a meaning of its own sends nothing, but
/// for the escape byte of Alt.
pub proof fn silent_keys_send_nothing(key_code: KeyCode, logical_key: Key, modes: KeyModes)
    requires
        !(modes.ctrl && ctrl_byte(key_code) is Some),
        physical_navigation(key_code) is None,
        logical_navigation(logical_key) is None,
        key_code != KeyCode::Enter && key_code != KeyCode::NumpadEnter && key_code != KeyCode::Tab
            && key_code != KeyCode::Backspace && key_code != KeyCode::Escape && key_code
            != KeyCode::Space,
    ensures
        key_bytes(key_code, logical_key, None, modes) == (if modes.alt {
            seq![0x1bu8]
        } else {
            Seq::empty()
        }),
{
    assert(key_bytes(key_code, logical_key, None, modes) =~= (if modes.alt {
        seq![0x1bu8]
    } else {
        Seq::empty()
    }));
}

/// The text of an event goes before the characters of its key, an empty text types
/// nothing, and keys without characters type nothing of their own.
pub proof fn event_text_goes_first(text: Seq<char>, chars: String, logical_key: Key)
    ensures
        typed_text(Some(text), logical_key) == (if text == Seq::<char>::empty() {
            None
        } else {
            Some(text)
        }),
        typed_text(None, Key::Character(chars)) == (if chars@ == Seq::<char>::empty() {
            None
        } else {
            Some(chars@)
        }),
        !(logical_key is Character) ==> typed_text(None, logical_key) is None,
{
    if text.len() == 0 {
        assert(text =~= Seq::<char>::empty());
    }
    if chars@.len() == 0 {
        assert(chars@ =~= Seq::<char>::empty());
    }
}

/// A modifier key that goes down is held until it goes up, and changes no other
/// modifier; the two keys of Control, of Shift and of Super are one modifier each,
/// the right Alt is none.
pub proof fn modifier_keys_are_held(keyboard: TerminalKeyboard, key_code: KeyCode, pressed: bool)
    ensures
        ({
            let before = keyboard.held();
            let after = keyboard.after(key_code, pressed).held();
            let control = key_code == KeyCode::ControlLeft || key_code == KeyCode::ControlRight;
            let shift = key_code == KeyCode::ShiftLeft || key_code == KeyCode::ShiftRight;
            let super_key = key_code == KeyCode::SuperLeft || key_code == KeyCode::SuperRight;
            &&& after.control == (if control {
                pressed
            } else {
                before.control
            })
            &&& after.alt == (if key_code == KeyCode::AltLeft {
                pressed
            } else {
                before.alt
            })
            &&& after.shift == (if shift {
                pressed
            } else {
                before.shift
            })
            &&& after.super_key == (if super_key {
                pressed
            } else {
                before.super_key
            })
            &&& keyboard.after(key_code, pressed).right_alt_pressed == (if key_code
                == KeyCode::AltRight {
                pressed
            } else {
                keyboard.right_alt_pressed
            })
        }),
{
}

/// The modifiers among held keys are those of a keyboard on which these keys went
/// down one after the other.
pub proof fn held_keys_make_the_modifiers(keys: Seq<KeyCode>, key: KeyCode, keyboard: TerminalKeyboard)
    ensures
        !modifiers_among(Seq::empty()).control && !modifiers_among(Seq::empty()).alt,
        !modifiers_among(Seq::empty()).shift && !modifiers_among(Seq::empty()).super_key,
        keyboard.held() == modifiers_among(keys) ==> keyboard.after(key, true).held()
            == modifiers_among(keys.push(key)),
{
    lemma_push_holds(keys, key, KeyCode::ControlLeft);
    lemma_push_holds(keys, key, KeyCode::ControlRight);
    lemma_push_holds(keys, key, KeyCode::AltLeft);
    lemma_push_holds(keys, key, KeyCode::ShiftLeft);
    lemma_push_holds(keys, key, KeyCode::ShiftRight);
    lemma_push_holds(keys, key, KeyCode::SuperLeft);
    lemma_push_holds(keys, key, KeyCode::SuperRight);
}

/// Only a press of a key that is no modifier sends anything. It is translated with
/// the modifiers that are held: the left Alt is Alt and the right Alt is AltGr.
pub proof fn presses_are_translated(
    keyboard: TerminalKeyboard,
    event: KeyEvent,
    application_cursor: bool,
    flags: u8,
    modify_other_keys: Option<u8>,
)
    ensures
        ({
            let sent = keyboard.event_bytes(event, application_cursor, flags, modify_other_keys);
            let key = event.key_code;
            let modifier = key == KeyCode::ControlLeft || key == KeyCode::ControlRight || key
                == KeyCode::AltLeft || key == KeyCode::AltRight || key == KeyCode::ShiftLeft || key
                == KeyCode::ShiftRight || key == KeyCode::SuperLeft || key == KeyCode::SuperRight;
            let text = match event.text {
                Some(text) => Some(text@),
                None => None,
            };
            &&& sent is Some <==> event.pressed && !modifier
            &&& sent matches Some(bytes) ==> bytes == key_bytes(
                key,
                event.logical_key,
                typed_text(text, event.logical_key),
                KeyModes {
                    ctrl: keyboard.ctrl_pressed,
                    alt: keyboard.left_alt_pressed,
                    alt_gr: keyboard.right_alt_pressed,
                    shift: keyboard.shift_pressed,
                    application_cursor,
                    kitty_keyboard_flags: flags,
                    modify_other_keys,
                },
            )
        }),
{
}

/// Enter, Tab, Backspace and Escape have a sequence of their own exactly where a
/// modifier is held and one was asked for; no other key has one.
pub proof fn own_sequences_are_asked_for(
    key_code: KeyCode,
    ctrl: bool,
    alt: bool,
    shift: bool,
    kitty_disambiguate: bool,
    modify_other_keys: Option<u8>,
)
    ensures
        special_bytes(key_code, ctrl, alt, shift, kitty_disambiguate, modify_other_keys) is Some
            <==> {
            &&& ctrl || alt || shift
            &&& kitty_disambiguate || modify_other_keys is Some
            &&& key_code == KeyCode::Enter || key_code == KeyCode::NumpadEnter || key_code
                == KeyCode::Tab || key_code == KeyCode::Backspace || key_code == KeyCode::Escape
        },
{
}

/// The modes of a translation are those that it is given, each under its own name.
pub proof fn translations_go_by_their_modes(ctx: KeyTranslationContext<'_>)
    ensures
        ctx.modes().ctrl == ctx.ctrl_pressed,
        ctx.modes().alt == ctx.alt_pressed,
        ctx.modes().alt_gr == ctx.alt_gr_pressed,
        ctx.modes().shift == ctx.shift_pressed,
        ctx.modes().application_cursor == ctx.application_cursor,
        ctx.modes().kitty_keyboard_flags == ctx.kitty_keyboard_flags,
        ctx.modes().modify_other_keys == ctx.modify_other_keys,
        ctx.text matches Some(text) ==> ctx.typed() == typed_text(Some(text@), *ctx.logical_key),
        ctx.text is None ==> ctx.typed() == typed_text(None, *ctx.logical_key),
{
}

/// An event types the text that it carries, and without one the characters of its
/// logical key.
pub proof fn events_type_their_text(event: KeyEvent)
    ensures
        event.text matches Some(text) ==> text@.len() > 0 ==> event.typed() == Some(text@),
        event.text matches Some(text) ==> text@.len() == 0 ==> event.typed() is None,
        event.text is None ==> (event.logical_key matches Key::Character(chars) ==> chars@.len() > 0
            ==> event.typed() == Some(chars@)),
        event.text is None && !(event.logical_key is Character) ==> event.typed() is None,
{
}

} // verus!
