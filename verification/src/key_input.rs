//! Handling of keyboard events: bound actions and terminal input.

use vstd::prelude::*;
use vstd::string::*;

use crate::bindings::{bound_action, BindingModifiers, TerminalKeyBindings};
use crate::config::{BindingAction, DEFAULT_FONT_SIZE};
use crate::keyboard::{KeyEvent, TerminalKeyboard};
use crate::keys::{
    is_modifier_key, logical_navigation, modifier_key, navigation_code, navigation_key_code, Key,
    KeyCode,
};
use crate::mouse::{encode_mouse_wheel, mouse_report, wheel_code};
use crate::numbers::decimal;
use crate::presentation::TerminalPresentationMode;
use crate::screen::{
    modes_of, screen_cells, screen_size, MouseProtocolEncoding, MouseProtocolMode, ScreenModes,
};
use crate::selection::{cleared, selected, TerminalSelection, UVec2};

verus! {

/// Whether an action scrolls through the history.
pub open spec fn scroll_action(action: BindingAction) -> bool {
    ||| action == BindingAction::ScrollPageUp
    ||| action == BindingAction::ScrollPageDown
    ||| action == BindingAction::ScrollUp
    ||| action == BindingAction::ScrollDown
}

/// Tests whether an action scrolls through the history.
pub fn is_scroll_action(action: BindingAction) -> (r: bool)
    ensures
        r == scroll_action(action),
{
    matches!(
        action,
        BindingAction::ScrollPageUp
            | BindingAction::ScrollPageDown
            | BindingAction::ScrollUp
            | BindingAction::ScrollDown
    )
}

/// Whether an action is started again while its key is held.
pub open spec fn repeats(action: BindingAction) -> bool {
    ||| scroll_action(action)
    ||| action == BindingAction::IncreaseFontSize
    ||| action == BindingAction::DecreaseFontSize
    ||| action == BindingAction::ResetFontSize
    ||| action == BindingAction::IncreaseWarp
    ||| action == BindingAction::DecreaseWarp
}

/// The presentation and terminal state that bound actions depend on.
#[derive(Clone, Copy, PartialEq, Eq, Structural, Debug)]
pub struct TerminalStatus {
    /// How the terminal is presented.
    pub presentation: TerminalPresentationMode,
    /// Whether a transition of the Mobius strip is running.
    pub transition_active: bool,
    /// Number of rows of the terminal.
    pub rows: u16,
    /// Font size in points.
    pub font_size: i32,
    /// Flags of the Kitty keyboard protocol.
    pub kitty_keyboard_flags: u8,
    /// Level of xterm's modifyOtherKeys, if it is on.
    pub modify_other_keys: Option<u8>,
}

/// What a keyboard event leads to.
#[derive(Clone, Copy, PartialEq, Eq, Structural, Debug)]
pub enum KeyDecision {
    /// Nothing.
    Ignore,
    /// Switch between the flat terminal and the plane.
    TogglePlaneMode,
    /// Enter or leave the Mobius strip.
    ToggleMobiusMode,
    /// Turn the wheel for the foreground program.
    Wheel {
        /// Whether the wheel turns up.
        up: bool,
        /// How many times it turns.
        count: u16,
    },
    /// Scroll the history to a position.
    ScrollTo(usize),
    /// Change the warp of the plane.
    AdjustWarp {
        /// Whether the warp grows.
        increase: bool,
    },
    /// Copy the selection.
    Copy,
    /// Paste the clipboard.
    Paste,
    /// Change the font size by a number of points.
    AdjustFontSize(i32),
    /// Send the key to the foreground program.
    Input,
}

/// The key that bindings see: the navigation key that the event means, or else
/// its physical key.
pub open spec fn binding_key(event: KeyEvent) -> KeyCode {
    match logical_navigation(event.logical_key) {
        Some(key) => navigation_code(key),
        None => event.key_code,
    }
}

/// The action that an event starts, if it starts one. Scrolling is left to the
/// foreground program while the alternate buffer is shown.
pub open spec fn started_action(
    bindings: TerminalKeyBindings,
    event: KeyEvent,
    modifiers: BindingModifiers,
    modes: ScreenModes,
) -> Option<BindingAction> {
    match bound_action(bindings@, binding_key(event), modifiers) {
        Some(action) if event.pressed && !(scroll_action(action) && modes.alternate_screen)
            && action != BindingAction::Disabled => Some(action),
        _ => None,
    }
}

/// How far an action scrolls: a page is all rows but one, and at least one row.
pub open spec fn scroll_amount(action: BindingAction, rows: u16) -> int {
    if action == BindingAction::ScrollUp || action == BindingAction::ScrollDown || rows <= 2 {
        1
    } else {
        rows - 1
    }
}

/// Whether an action scrolls up.
pub open spec fn scrolls_up(action: BindingAction) -> bool {
    action == BindingAction::ScrollUp || action == BindingAction::ScrollPageUp
}

/// A history position after scrolling by an amount, within the limits of the
/// type.
pub open spec fn scrolled_to(current: usize, up: bool, amount: int) -> int {
    if up {
        if current + amount <= usize::MAX {
            current + amount
        } else {
            usize::MAX as int
        }
    } else if current >= amount {
        current - amount
    } else {
        0
    }
}

/// What an action leads to.
pub open spec fn action_decision(
    action: BindingAction,
    modes: ScreenModes,
    status: TerminalStatus,
) -> KeyDecision {
    let amount = scroll_amount(action, status.rows);
    match action {
        BindingAction::Disabled => KeyDecision::Ignore,
        BindingAction::Toggle3DMode => KeyDecision::TogglePlaneMode,
        BindingAction::ToggleMobiusMode => KeyDecision::ToggleMobiusMode,
        BindingAction::ScrollPageUp
        | BindingAction::ScrollPageDown
        | BindingAction::ScrollUp
        | BindingAction::ScrollDown => if status.presentation == TerminalPresentationMode::Flat2d
            && modes.mouse_mode != MouseProtocolMode::Off {
            KeyDecision::Wheel { up: scrolls_up(action), count: amount as u16 }
        } else {
            KeyDecision::ScrollTo(
                scrolled_to(modes.scrollback, scrolls_up(action), amount) as usize,
            )
        },
        BindingAction::IncreaseWarp => KeyDecision::AdjustWarp { increase: true },
        BindingAction::DecreaseWarp => KeyDecision::AdjustWarp { increase: false },
        BindingAction::Copy => KeyDecision::Copy,
        BindingAction::Paste => KeyDecision::Paste,
        BindingAction::IncreaseFontSize => KeyDecision::AdjustFontSize(1),
        BindingAction::DecreaseFontSize => KeyDecision::AdjustFontSize((-1) as i32),
        BindingAction::ResetFontSize => if status.font_size == DEFAULT_FONT_SIZE {
            KeyDecision::Ignore
        } else {
            KeyDecision::AdjustFontSize((DEFAULT_FONT_SIZE - status.font_size) as i32)
        },
    }
}

/// What a keyboard event leads to.
pub open spec fn decision(
    bindings: TerminalKeyBindings,
    event: KeyEvent,
    modifiers: BindingModifiers,
    modes: ScreenModes,
    status: TerminalStatus,
) -> KeyDecision {
    match started_action(bindings, event, modifiers, modes) {
        Some(action) => if event.repeat && !repeats(action) {
            KeyDecision::Ignore
        } else {
            action_decision(action, modes, status)
        },
        None => if event.pressed && event.repeat && bound_action(
            bindings@,
            binding_key(event),
            modifiers,
        ) == Some(BindingAction::Disabled) {
            KeyDecision::Ignore
        } else {
            KeyDecision::Input
        },
    }
}

/// Whether a keyboard event is bound to a reset of the font size.
pub open spec fn resets_font(
    bindings: TerminalKeyBindings,
    event: KeyEvent,
    modifiers: BindingModifiers,
) -> bool {
    event.pressed && bound_action(bindings@, binding_key(event), modifiers) == Some(
        BindingAction::ResetFontSize,
    )
}

/// Whether a reset of the font size can be expressed as a change.
pub open spec fn font_can_be_reset(status: TerminalStatus) -> bool {
    DEFAULT_FONT_SIZE - status.font_size <= i32::MAX
}

/// Decides what a keyboard event leads to.
pub fn decide(
    bindings: &TerminalKeyBindings,
    event: &KeyEvent,
    modifiers: BindingModifiers,
    modes: &ScreenModes,
    status: &TerminalStatus,
) -> (outcome: KeyDecision)
    requires
        resets_font(*bindings, *event, modifiers) ==> font_can_be_reset(*status),
    ensures
        outcome == decision(*bindings, *event, modifiers, *modes, *status),
{
    if !event.pressed {
        return KeyDecision::Input;
    }
    let key_code: KeyCode = match navigation_key_code(&event.logical_key) {
        Some(key_code) => key_code,
        None => event.key_code,
    };
    let action: BindingAction = match bindings.action_for(key_code, modifiers) {
        Some(action) => action,
        None => return KeyDecision::Input,
    };
    if is_scroll_action(action) && modes.alternate_screen {
        return KeyDecision::Input;
    }
    if event.repeat && !matches!(
        action,
        BindingAction::IncreaseFontSize
            | BindingAction::DecreaseFontSize
            | BindingAction::ResetFontSize
            | BindingAction::ScrollPageUp
            | BindingAction::ScrollPageDown
            | BindingAction::ScrollUp
            | BindingAction::ScrollDown
            | BindingAction::IncreaseWarp
            | BindingAction::DecreaseWarp
    ) {
        return KeyDecision::Ignore;
    }
    match action {
        BindingAction::Disabled => KeyDecision::Input,
        BindingAction::Toggle3DMode => KeyDecision::TogglePlaneMode,
        BindingAction::ToggleMobiusMode => KeyDecision::ToggleMobiusMode,
        BindingAction::ScrollPageUp => decide_scroll(true, page_rows(status.rows), modes, status),
        BindingAction::ScrollPageDown => decide_scroll(
            false,
            page_rows(status.rows),
            modes,
            status,
        ),
        BindingAction::ScrollUp => decide_scroll(true, 1, modes, status),
        BindingAction::ScrollDown => decide_scroll(false, 1, modes, status),
        BindingAction::IncreaseWarp => KeyDecision::AdjustWarp { increase: true },
        BindingAction::DecreaseWarp => KeyDecision::AdjustWarp { increase: false },
        BindingAction::Copy => KeyDecision::Copy,
        BindingAction::Paste => KeyDecision::Paste,
        BindingAction::IncreaseFontSize => KeyDecision::AdjustFontSize(1),
        BindingAction::DecreaseFontSize => KeyDecision::AdjustFontSize(-1),
        BindingAction::ResetFontSize => {
            let delta: i32 = DEFAULT_FONT_SIZE - status.font_size;
            if delta == 0 {
                KeyDecision::Ignore
            } else {
                KeyDecision::AdjustFontSize(delta)
            }
        },
    }
}

/// How many rows a page scrolls by.
fn page_rows(rows: u16) -> (amount: u16)
    ensures
        amount == scroll_amount(BindingAction::ScrollPageUp, rows),
        amount == scroll_amount(BindingAction::ScrollPageDown, rows),
{
    let less: u16 = rows.saturating_sub(1);
    if less < 1 {
        1
    } else {
        less
    }
}

/// Decides what a scroll action leads to.
fn decide_scroll(up: bool, amount: u16, modes: &ScreenModes, status: &TerminalStatus) -> (outcome:
    KeyDecision)
    ensures
        outcome == (if status.presentation == TerminalPresentationMode::Flat2d && modes.mouse_mode
            != MouseProtocolMode::Off {
            KeyDecision::Wheel { up, count: amount }
        } else {
            KeyDecision::ScrollTo(scrolled_to(modes.scrollback, up, amount as int) as usize)
        }),
{
    if status.presentation == TerminalPresentationMode::Flat2d && modes.mouse_mode
        != MouseProtocolMode::Off {
        KeyDecision::Wheel { up, count: amount }
    } else if up {
        KeyDecision::ScrollTo(modes.scrollback.saturating_add(amount as usize))
    } else {
        KeyDecision::ScrollTo(modes.scrollback.saturating_sub(amount as usize))
    }
}

/// What is to be done about a keyboard event.
pub enum KeyboardCommand {
    /// Nothing.
    Nothing,
    /// Switch between the flat terminal and the plane, and stop any transition.
    TogglePlaneMode,
    /// Enter the Mobius strip.
    EnterMobius {
        /// Mode to return to.
        previous_mode: TerminalPresentationMode,
    },
    /// Leave the Mobius strip.
    ExitMobius {
        /// Whether the zoom of the running transition is the one to start from.
        from_transition: bool,
    },
    /// Send the same bytes a number of times.
    SendRepeated {
        /// Bytes to send.
        bytes: Vec<u8>,
        /// How many times to send them.
        count: u16,
    },
    /// Scroll the history to a position.
    ScrollTo(usize),
    /// Change the warp of the plane.
    AdjustWarp {
        /// Whether the warp grows.
        increase: bool,
    },
    /// Put a text on the clipboard.
    CopyText(String),
    /// Send the text of the clipboard.
    PasteClipboard {
        /// Whether the paste goes in brackets.
        bracketed: bool,
    },
    /// Change the font size by a number of points.
    AdjustFontSize(i32),
    /// Send bytes.
    SendInput {
        /// Bytes to send.
        bytes: Vec<u8>,
        /// Whether the terminal has to return from its history first.
        reset_scrollback: bool,
    },
}

/// The answer to a keyboard event.
pub struct KeyboardOutcome {
    /// What is to be done.
    pub command: KeyboardCommand,
    /// Whether the terminal has to be drawn again.
    pub redraw: bool,
}

/// Whether an outcome is the answer to an event, where `text` is the text of the
/// selection, if there is one.
pub open spec fn answers_event<P>(
    outcome: KeyboardOutcome,
    decision: KeyDecision,
    event: KeyEvent,
    keyboard: TerminalKeyboard,
    selection: TerminalSelection<P>,
    text: Option<Seq<char>>,
    modes: ScreenModes,
    status: TerminalStatus,
) -> bool {
    match decision {
        KeyDecision::Ignore => outcome.command is Nothing && !outcome.redraw,
        KeyDecision::TogglePlaneMode => outcome.command is TogglePlaneMode && outcome.redraw,
        KeyDecision::ToggleMobiusMode => {
            &&& outcome.redraw
            &&& if status.presentation == TerminalPresentationMode::Mobius3d {
                outcome.command == (KeyboardCommand::ExitMobius {
                    from_transition: status.transition_active,
                })
            } else {
                outcome.command == (KeyboardCommand::EnterMobius {
                    previous_mode: status.presentation,
                })
            }
        },
        KeyDecision::Wheel { up, count } => {
            &&& !outcome.redraw
            &&& outcome.command matches KeyboardCommand::SendRepeated { bytes, count: times }
            &&& times == count
            &&& bytes@ == mouse_report(
                UVec2 { x: modes.cursor_col as u32, y: modes.cursor_row as u32 },
                wheel_code(up),
                false,
                modes.mouse_encoding,
            )
        },
        KeyDecision::ScrollTo(offset) => {
            &&& outcome.redraw
            &&& outcome.command == KeyboardCommand::ScrollTo(offset)
        },
        KeyDecision::AdjustWarp { increase } => {
            &&& outcome.redraw
            &&& outcome.command == (KeyboardCommand::AdjustWarp { increase })
        },
        KeyDecision::Copy => {
            &&& outcome.redraw == selection.active()
            &&& if text is Some && text->0.len() > 0 {
                outcome.command matches KeyboardCommand::CopyText(copied) && copied@ == text->0
            } else {
                outcome.command is Nothing
            }
        },
        KeyDecision::Paste => {
            &&& outcome.redraw == selection.active()
            &&& outcome.command == (KeyboardCommand::PasteClipboard {
                bracketed: modes.bracketed_paste,
            })
        },
        KeyDecision::AdjustFontSize(delta) => {
            &&& !outcome.redraw
            &&& outcome.command == KeyboardCommand::AdjustFontSize(delta)
        },
        KeyDecision::Input => {
            let dropped = clears_selection(event) && selection.active();
            match keyboard.event_bytes(
                event,
                modes.application_cursor,
                status.kitty_keyboard_flags,
                status.modify_other_keys,
            ) {
                Some(sent) => {
                    &&& outcome.redraw == (dropped || modes.scrollback != 0)
                    &&& outcome.command matches KeyboardCommand::SendInput { bytes, reset_scrollback }
                    &&& bytes@ == sent
                    &&& reset_scrollback == (modes.scrollback != 0)
                },
                None => {
                    &&& outcome.redraw == dropped
                    &&& outcome.command is Nothing
                },
            }
        },
    }
}

/// Whether an event that goes to the foreground program drops the selection:
/// every press does, but for those of modifier keys.
pub open spec fn clears_selection(event: KeyEvent) -> bool {
    event.pressed && !modifier_key(binding_key(event))
}

/// The selection after an event.
pub open spec fn selection_after<P>(
    decision: KeyDecision,
    event: KeyEvent,
    selection: TerminalSelection<P>,
) -> TerminalSelection<P> {
    match decision {
        KeyDecision::TogglePlaneMode
        | KeyDecision::ToggleMobiusMode
        | KeyDecision::ScrollTo(_)
        | KeyDecision::Copy
        | KeyDecision::Paste => cleared(),
        KeyDecision::Input => if clears_selection(event) {
            cleared()
        } else {
            selection
        },
        _ => selection,
    }
}

/// The keyboard state after an event. Only events that go to the foreground
/// program are tracked.
pub open spec fn keyboard_after(
    decision: KeyDecision,
    event: KeyEvent,
    keyboard: TerminalKeyboard,
) -> TerminalKeyboard {
    if decision is Input {
        keyboard.after(event.key_code, event.pressed)
    } else {
        keyboard
    }
}

/// The characters of an optional text.
pub open spec fn chars_in(text: Option<String>) -> Option<Seq<char>> {
    match text {
        Some(text) => Some(text@),
        None => None,
    }
}

/// Carries out a decision on the selection and the keyboard state, and says what
/// is left to be done. `text` is the text of the selection, if there is one.
pub fn respond<P>(
    decision: KeyDecision,
    event: &KeyEvent,
    keyboard: &mut TerminalKeyboard,
    selection: &mut TerminalSelection<P>,
    text: Option<String>,
    modes: &ScreenModes,
    status: &TerminalStatus,
) -> (outcome: KeyboardOutcome)
    ensures
        answers_event(
            outcome,
            decision,
            *event,
            *old(keyboard),
            *old(selection),
            chars_in(text),
            *modes,
            *status,
        ),
        *final(selection) == selection_after(decision, *event, *old(selection)),
        *final(keyboard) == keyboard_after(decision, *event, *old(keyboard)),
{
    match decision {
        KeyDecision::Ignore => {
            KeyboardOutcome { command: KeyboardCommand::Nothing, redraw: false }
        },
        KeyDecision::TogglePlaneMode => {
            selection.clear();
            KeyboardOutcome { command: KeyboardCommand::TogglePlaneMode, redraw: true }
        },
        KeyDecision::ToggleMobiusMode => {
            selection.clear();
            let command = if status.presentation == TerminalPresentationMode::Mobius3d {
                KeyboardCommand::ExitMobius { from_transition: status.transition_active }
            } else {
                KeyboardCommand::EnterMobius { previous_mode: status.presentation }
            };
            KeyboardOutcome { command, redraw: true }
        },
        KeyDecision::Wheel { up, count } => {
            let cell: UVec2 = UVec2::new(modes.cursor_col as u32, modes.cursor_row as u32);
            let bytes = encode_mouse_wheel(cell, up, modes.mouse_encoding);
            KeyboardOutcome {
                command: KeyboardCommand::SendRepeated { bytes, count },
                redraw: false,
            }
        },
        KeyDecision::ScrollTo(offset) => {
            selection.clear();
            KeyboardOutcome { command: KeyboardCommand::ScrollTo(offset), redraw: true }
        },
        KeyDecision::AdjustWarp { increase } => {
            KeyboardOutcome { command: KeyboardCommand::AdjustWarp { increase }, redraw: true }
        },
        KeyDecision::Copy => {
            let redraw = selection.clear();
            if let Some(text) = text {
                if !text.as_str().is_empty() {
                    return KeyboardOutcome { command: KeyboardCommand::CopyText(text), redraw };
                }
            }
            KeyboardOutcome { command: KeyboardCommand::Nothing, redraw }
        },
        KeyDecision::Paste => {
            let redraw = selection.clear();
            KeyboardOutcome {
                command: KeyboardCommand::PasteClipboard { bracketed: modes.bracketed_paste },
                redraw,
            }
        },
        KeyDecision::AdjustFontSize(delta) => {
            KeyboardOutcome { command: KeyboardCommand::AdjustFontSize(delta), redraw: false }
        },
        KeyDecision::Input => {
            let key_code: KeyCode = match navigation_key_code(&event.logical_key) {
                Some(key_code) => key_code,
                None => event.key_code,
            };
            let mut redraw = false;
            if event.pressed && !is_modifier_key(key_code) {
                redraw = selection.clear();
            }
            let input = keyboard.handle_event_with_modes(
                event,
                modes.application_cursor,
                status.kitty_keyboard_flags,
                status.modify_other_keys,
            );
            match input {
                Some(bytes) => {
                    let reset_scrollback = modes.scrollback != 0;
                    KeyboardOutcome {
                        command: KeyboardCommand::SendInput { bytes, reset_scrollback },
                        redraw: redraw || reset_scrollback,
                    }
                },
                None => KeyboardOutcome { command: KeyboardCommand::Nothing, redraw },
            }
        },
    }
}

/// The text of a selection on a screen.
pub open spec fn selection_text<P>(selection: TerminalSelection<P>, screen: vt100::Screen) -> Option<
    Seq<char>,
> {
    match selection.bounds() {
        Some(bounds) => Some(selected(screen_cells(screen), screen_size(screen).1, bounds)),
        None => None,
    }
}

/// What a keyboard event on a terminal screen leads to. The held modifiers are those
/// among the keys that are down and those that the keyboard follows.
pub open spec fn screen_decision(
    bindings: TerminalKeyBindings,
    event: KeyEvent,
    held: BindingModifiers,
    keyboard: TerminalKeyboard,
    screen: vt100::Screen,
    status: TerminalStatus,
) -> KeyDecision {
    decision(bindings, event, held.joined(keyboard.held()), modes_of(screen), status)
}

/// A modifier counts for the bindings where it is among the keys that are down or
/// followed by the keyboard; the right Alt does not count.
pub proof fn modifiers_of_either_source_count(
    bindings: TerminalKeyBindings,
    event: KeyEvent,
    held: BindingModifiers,
    keyboard: TerminalKeyboard,
    screen: vt100::Screen,
    status: TerminalStatus,
)
    ensures
        ({
            let both = (BindingModifiers {
                control: held.control || keyboard.ctrl_pressed,
                alt: held.alt || keyboard.left_alt_pressed,
                shift: held.shift || keyboard.shift_pressed,
                super_key: held.super_key || keyboard.super_pressed,
            });
            screen_decision(bindings, event, held, keyboard, screen, status) == decision(
                bindings,
                event,
                both,
                modes_of(screen),
                status,
            )
        }),
{
}

/// There is a text to copy exactly where there is a selection, and it is the text of
/// the cells of the screen between the bounds of the selection.
pub proof fn selections_are_copied_from_the_screen<P>(
    selection: TerminalSelection<P>,
    screen: vt100::Screen,
    start: UVec2,
    end: UVec2,
)
    ensures
        selection.start is None ==> selection_text(selection, screen) is None,
        selection.start == Some(start) && selection.end == Some(end) ==> selection_text(
            selection,
            screen,
        ) == Some(
            selected(
                screen_cells(screen),
                screen_size(screen).1,
                crate::selection::bounds_between(start, end),
            ),
        ),
{
}

/// Handles a keyboard event on a terminal screen. `held` are the modifiers among
/// the keys that are down.
pub fn handle_keyboard_input<P>(
    bindings: &TerminalKeyBindings,
    event: &KeyEvent,
    held: BindingModifiers,
    keyboard: &mut TerminalKeyboard,
    selection: &mut TerminalSelection<P>,
    screen: &vt100::Screen,
    status: &TerminalStatus,
) -> (outcome: KeyboardOutcome)
    requires
        resets_font(*bindings, *event, held.joined(old(keyboard).held())) ==> font_can_be_reset(
            *status,
        ),
    ensures
        ({
            let modifiers = held.joined(old(keyboard).held());
            let taken = decision(*bindings, *event, modifiers, modes_of(*screen), *status);
            &&& answers_event(
                outcome,
                taken,
                *event,
                *old(keyboard),
                *old(selection),
                selection_text(*old(selection), *screen),
                modes_of(*screen),
                *status,
            )
            &&& *final(selection) == selection_after(taken, *event, *old(selection))
            &&& *final(keyboard) == keyboard_after(taken, *event, *old(keyboard))
            &&& taken == screen_decision(*bindings, *event, held, *old(keyboard), *screen, *status)
        }),
{
    let modes = ScreenModes::of(screen);
    let modifiers = held.union(keyboard.modifiers());
    let taken = decide(bindings, event, modifiers, &modes, status);
    let text: Option<String> = if matches!(taken, KeyDecision::Copy) {
        selection.selected_text(screen)
    } else {
        None
    };
    respond(taken, event, keyboard, selection, text, &modes, status)
}

/// While the alternate buffer is shown, keys bound to scrolling go to the
/// foreground program.
pub proof fn alternate_screen_keeps_scroll_keys(
    bindings: TerminalKeyBindings,
    event: KeyEvent,
    modifiers: BindingModifiers,
    modes: ScreenModes,
    status: TerminalStatus,
)
    requires
        modes.alternate_screen,
        bound_action(bindings@, binding_key(event), modifiers) matches Some(action)
            && scroll_action(action),
    ensures
        decision(bindings, event, modifiers, modes, status) == KeyDecision::Input,
{
}

/// A key going up starts no action.
pub proof fn releases_start_nothing(
    bindings: TerminalKeyBindings,
    event: KeyEvent,
    modifiers: BindingModifiers,
    modes: ScreenModes,
    status: TerminalStatus,
)
    requires
        !event.pressed,
    ensures
        decision(bindings, event, modifiers, modes, status) == KeyDecision::Input,
{
}

/// Input that is sent brings the terminal back from its history and ends the
/// selection.
pub proof fn input_returns_from_history<P>(
    outcome: KeyboardOutcome,
    event: KeyEvent,
    keyboard: TerminalKeyboard,
    selection: TerminalSelection<P>,
    text: Option<Seq<char>>,
    modes: ScreenModes,
    status: TerminalStatus,
)
    requires
        answers_event(
            outcome,
            KeyDecision::Input,
            event,
            keyboard,
            selection,
            text,
            modes,
            status,
        ),
        outcome.command is SendInput,
    ensures
        outcome.command matches KeyboardCommand::SendInput { reset_scrollback, .. }
            && reset_scrollback == (modes.scrollback != 0),
        modes.scrollback != 0 ==> outcome.redraw,
        selection_after(KeyDecision::Input, event, selection) == cleared::<P>(),
{
    assert(!modifier_key(event.key_code) && event.pressed);
    assert(!modifier_key(binding_key(event)));
}

/// Scrolling up and then down by the same amount returns to the same place in the
/// history, short of the largest position.
pub proof fn key_scrolling_is_undone(current: usize, amount: int)
    requires
        0 <= amount,
        current + amount <= usize::MAX,
    ensures
        scrolled_to(scrolled_to(current, true, amount) as usize, false, amount) == current,
{
}

/// What a fresh press of a bound key leads to, action by action. Opposite actions
/// lead to opposite decisions.
pub proof fn bound_keys_run_their_action(
    bindings: TerminalKeyBindings,
    event: KeyEvent,
    modifiers: BindingModifiers,
    modes: ScreenModes,
    status: TerminalStatus,
)
    requires
        event.pressed,
        !event.repeat,
        !modes.alternate_screen,
        font_can_be_reset(status),
    ensures
        ({
            let decided = decision(bindings, event, modifiers, modes, status);
            let in_program = status.presentation == TerminalPresentationMode::Flat2d
                && modes.mouse_mode != MouseProtocolMode::Off;
            let page = if status.rows >= 3 {
                status.rows - 1
            } else {
                1
            };
            match bound_action(bindings@, binding_key(event), modifiers) {
                Some(BindingAction::Toggle3DMode) => decided == KeyDecision::TogglePlaneMode,
                Some(BindingAction::ToggleMobiusMode) => decided == KeyDecision::ToggleMobiusMode,
                Some(BindingAction::Copy) => decided == KeyDecision::Copy,
                Some(BindingAction::Paste) => decided == KeyDecision::Paste,
                Some(BindingAction::IncreaseWarp) => decided matches KeyDecision::AdjustWarp {
                    increase,
                } && increase,
                Some(BindingAction::DecreaseWarp) => decided matches KeyDecision::AdjustWarp {
                    increase,
                } && !increase,
                Some(BindingAction::IncreaseFontSize) => decided
                    matches KeyDecision::AdjustFontSize(delta) && delta == 1,
                Some(BindingAction::DecreaseFontSize) => decided
                    matches KeyDecision::AdjustFontSize(delta) && delta == -1,
                Some(BindingAction::ResetFontSize) => if status.font_size == 18 {
                    decided == KeyDecision::Ignore
                } else {
                    decided matches KeyDecision::AdjustFontSize(delta) && status.font_size + delta
                        == 18
                },
                Some(BindingAction::ScrollUp) => if in_program {
                    decided matches KeyDecision::Wheel { up, count } && up && count == 1
                } else {
                    decided matches KeyDecision::ScrollTo(to) && climbs(modes.scrollback, to, 1)
                },
                Some(BindingAction::ScrollPageUp) => if in_program {
                    decided matches KeyDecision::Wheel { up, count } && up && count == page
                } else {
                    decided matches KeyDecision::ScrollTo(to) && climbs(modes.scrollback, to, page)
                },
                Some(BindingAction::ScrollDown) => if in_program {
                    decided matches KeyDecision::Wheel { up, count } && !up && count == 1
                } else {
                    decided matches KeyDecision::ScrollTo(to) && sinks(modes.scrollback, to, 1)
                },
                Some(BindingAction::ScrollPageDown) => if in_program {
                    decided matches KeyDecision::Wheel { up, count } && !up && count == page
                } else {
                    decided matches KeyDecision::ScrollTo(to) && sinks(modes.scrollback, to, page)
                },
                Some(BindingAction::Disabled) | None => decided == KeyDecision::Input,
            }
        }),
{
}

/// Whether a position lies a number of lines further back in the history, or as
/// far back as positions go.
pub open spec fn climbs(from: usize, to: usize, lines: int) -> bool {
    to - from == lines || (to == usize::MAX && from + lines > usize::MAX)
}

/// Whether a position lies a number of lines further down in the history, or at
/// its end.
pub open spec fn sinks(from: usize, to: usize, lines: int) -> bool {
    from - to == lines || (to == 0 && from < lines)
}

/// Actions that step by step change something run again while their key is held;
/// switches and the clipboard do not, and a disabled key stays quiet.
pub proof fn held_keys_repeat_steps(
    bindings: TerminalKeyBindings,
    event: KeyEvent,
    modifiers: BindingModifiers,
    modes: ScreenModes,
    status: TerminalStatus,
)
    requires
        event.pressed,
        event.repeat,
        !modes.alternate_screen,
    ensures
        ({
            let decided = decision(bindings, event, modifiers, modes, status);
            let fresh = decision(
                bindings,
                KeyEvent { repeat: false, ..event },
                modifiers,
                modes,
                status,
            );
            match bound_action(bindings@, binding_key(event), modifiers) {
                Some(BindingAction::Toggle3DMode)
                | Some(BindingAction::ToggleMobiusMode)
                | Some(BindingAction::Copy)
                | Some(BindingAction::Paste)
                | Some(BindingAction::Disabled) => decided == KeyDecision::Ignore,
                _ => decided == fresh,
            }
        }),
{
}

/// The alternate screen changes what a key leads to only for the keys that
/// scroll.
pub proof fn alternate_screen_leaves_other_keys(
    bindings: TerminalKeyBindings,
    event: KeyEvent,
    modifiers: BindingModifiers,
    modes: ScreenModes,
    status: TerminalStatus,
)
    ensures
        ({
            let action = bound_action(bindings@, binding_key(event), modifiers);
            let scrolls = action == Some(BindingAction::ScrollUp) || action == Some(
                BindingAction::ScrollDown,
            ) || action == Some(BindingAction::ScrollPageUp) || action == Some(
                BindingAction::ScrollPageDown,
            );
            !scrolls ==> decision(bindings, event, modifiers, modes, status) == decision(
                bindings,
                event,
                modifiers,
                ScreenModes { alternate_screen: !modes.alternate_screen, ..modes },
                status,
            )
        }),
{
}

/// Bindings see a navigation key by its logical key, and any other key by its
/// physical key.
pub proof fn bindings_see_logical_navigation(event: KeyEvent)
    ensures
        binding_key(event) == (match event.logical_key {
            Key::ArrowUp => KeyCode::ArrowUp,
            Key::ArrowDown => KeyCode::ArrowDown,
            Key::ArrowLeft => KeyCode::ArrowLeft,
            Key::ArrowRight => KeyCode::ArrowRight,
            Key::Home => KeyCode::Home,
            Key::End => KeyCode::End,
            Key::PageUp => KeyCode::PageUp,
            Key::PageDown => KeyCode::PageDown,
            Key::Insert => KeyCode::Insert,
            Key::Delete => KeyCode::Delete,
            _ => event.key_code,
        }),
{
}

/// What is done about each decision.
pub proof fn decisions_are_carried_out<P>(
    outcome: KeyboardOutcome,
    decision: KeyDecision,
    event: KeyEvent,
    keyboard: TerminalKeyboard,
    selection: TerminalSelection<P>,
    text: Option<Seq<char>>,
    modes: ScreenModes,
    status: TerminalStatus,
)
    requires
        answers_event(
            outcome,
            decision,
            event,
            keyboard,
            selection,
            text,
            modes,
            status,
        ),
    ensures
        match decision {
            KeyDecision::Ignore => outcome.command is Nothing && !outcome.redraw,
            KeyDecision::TogglePlaneMode => outcome.command is TogglePlaneMode && outcome.redraw,
            KeyDecision::ToggleMobiusMode => outcome.redraw && match outcome.command {
                KeyboardCommand::EnterMobius { previous_mode } => status.presentation
                    != TerminalPresentationMode::Mobius3d && previous_mode == status.presentation,
                KeyboardCommand::ExitMobius { from_transition } => status.presentation
                    == TerminalPresentationMode::Mobius3d && (from_transition
                    <==> status.transition_active),
                _ => false,
            },
            KeyDecision::ScrollTo(offset) => outcome.redraw && (outcome.command
                matches KeyboardCommand::ScrollTo(to) && to == offset),
            KeyDecision::AdjustWarp { increase } => outcome.redraw && (outcome.command
                matches KeyboardCommand::AdjustWarp { increase: grows } && grows == increase),
            KeyDecision::AdjustFontSize(delta) => outcome.command
                matches KeyboardCommand::AdjustFontSize(by) && by == delta,
            KeyDecision::Copy => match outcome.command {
                KeyboardCommand::CopyText(copied) => text == Some(copied@) && copied@.len() > 0,
                KeyboardCommand::Nothing => text is None || text == Some(Seq::<char>::empty()),
                _ => false,
            },
            KeyDecision::Paste => outcome.command matches KeyboardCommand::PasteClipboard {
                bracketed,
            } && bracketed == modes.bracketed_paste,
            KeyDecision::Wheel { up, count } => outcome.command
                matches KeyboardCommand::SendRepeated { bytes, count: times } && times == count && (
            modes.mouse_encoding == MouseProtocolEncoding::Sgr ==> bytes@ == seq![
                0x1bu8,
                0x5b,
                0x3c,
                0x36,
                if up {
                    0x34
                } else {
                    0x35
                },
                0x3b,
            ] + decimal((modes.cursor_col + 1) as nat) + seq![0x3bu8] + decimal(
                (modes.cursor_row + 1) as nat,
            ) + seq![0x4du8]),
            KeyDecision::Input => match outcome.command {
                KeyboardCommand::SendInput { bytes, reset_scrollback } => {
                    &&& event.pressed
                    &&& keyboard.event_bytes(
                        event,
                        modes.application_cursor,
                        status.kitty_keyboard_flags,
                        status.modify_other_keys,
                    ) == Some(bytes@)
                    &&& reset_scrollback <==> modes.scrollback > 0
                    &&& modes.scrollback > 0 ==> outcome.redraw
                },
                KeyboardCommand::Nothing => keyboard.event_bytes(
                    event,
                    modes.application_cursor,
                    status.kitty_keyboard_flags,
                    status.modify_other_keys,
                ) is None,
                _ => false,
            },
        },
{
    if decision is Copy && text is Some && text->0.len() == 0 {
        assert(text->0 =~= Seq::<char>::empty());
    }
    if decision is Wheel {
        lemma_wheel_digits();
        let up = decision->up;
        let cell = UVec2 { x: modes.cursor_col as u32, y: modes.cursor_row as u32 };
        let tail = decimal((modes.cursor_col + 1) as nat) + seq![0x3bu8] + decimal(
            (modes.cursor_row + 1) as nat,
        ) + seq![0x4du8];
        if modes.mouse_encoding == MouseProtocolEncoding::Sgr {
            assert(mouse_report(cell, wheel_code(up), false, modes.mouse_encoding) =~= seq![
                0x1bu8,
                0x5b,
                0x3c,
                0x36,
                if up {
                    0x34
                } else {
                    0x35
                },
                0x3b,
            ] + decimal((modes.cursor_col + 1) as nat) + seq![0x3bu8] + decimal(
                (modes.cursor_row + 1) as nat,
            ) + seq![0x4du8]);
        }
    }
}

proof fn lemma_wheel_digits()
    ensures
        decimal(64) == seq![0x36u8, 0x34],
        decimal(65) == seq![0x36u8, 0x35],
{
    reveal_with_fuel(decimal, 3);
    assert(decimal(64) =~= seq![0x36u8, 0x34]);
    assert(decimal(65) =~= seq![0x36u8, 0x35]);
}

/// Switching the view, scrolling the history, the clipboard and the press of any
/// key but a modifier for the foreground program end the selection. Nothing else
/// touches it.
pub proof fn actions_end_the_selection<P>(
    decision: KeyDecision,
    event: KeyEvent,
    selection: TerminalSelection<P>,
)
    ensures
        ({
            let after = selection_after(decision, event, selection);
            let key = binding_key(event);
            let modifier = key == KeyCode::ControlLeft || key == KeyCode::ControlRight || key
                == KeyCode::AltLeft || key == KeyCode::AltRight || key == KeyCode::ShiftLeft || key
                == KeyCode::ShiftRight || key == KeyCode::SuperLeft || key == KeyCode::SuperRight;
            let ends = match decision {
                KeyDecision::TogglePlaneMode
                | KeyDecision::ToggleMobiusMode
                | KeyDecision::ScrollTo(_)
                | KeyDecision::Copy
                | KeyDecision::Paste => true,
                KeyDecision::Input => event.pressed && !modifier,
                _ => false,
            };
            if ends {
                &&& after.start is None
                &&& after.end is None
                &&& after.pending_start is None
                &&& after.pending_position is None
                &&& !after.dragging
            } else {
                after == selection
            }
        }),
{
}

/// Ending a selection has the terminal drawn again where there was one to end.
pub proof fn ended_selections_are_redrawn<P>(
    outcome: KeyboardOutcome,
    decision: KeyDecision,
    event: KeyEvent,
    keyboard: TerminalKeyboard,
    selection: TerminalSelection<P>,
    text: Option<Seq<char>>,
    modes: ScreenModes,
    status: TerminalStatus,
)
    requires
        answers_event(
            outcome,
            decision,
            event,
            keyboard,
            selection,
            text,
            modes,
            status,
        ),
        selection.start is Some,
        selection_after(decision, event, selection).start is None,
    ensures
        outcome.redraw,
{
}

/// Keys that go to the foreground program are followed by the keyboard state, and
/// keys that start an action are not.
pub proof fn only_input_reaches_the_keyboard(
    decision: KeyDecision,
    event: KeyEvent,
    keyboard: TerminalKeyboard,
)
    ensures
        decision == KeyDecision::Input ==> keyboard_after(decision, event, keyboard)
            == keyboard.after(event.key_code, event.pressed),
        decision != KeyDecision::Input ==> keyboard_after(decision, event, keyboard) == keyboard,
{
}

/// The terminal is drawn again for a change of the view, of the warp or of the place
/// in the history. The clipboard and input have it drawn again only where they end a
/// selection or return from the history, and nothing else has.
pub proof fn other_decisions_draw_nothing<P>(
    outcome: KeyboardOutcome,
    decision: KeyDecision,
    event: KeyEvent,
    keyboard: TerminalKeyboard,
    selection: TerminalSelection<P>,
    text: Option<Seq<char>>,
    modes: ScreenModes,
    status: TerminalStatus,
)
    requires
        answers_event(
            outcome,
            decision,
            event,
            keyboard,
            selection,
            text,
            modes,
            status,
        ),
    ensures
        decision is Ignore || decision is Wheel || decision is AdjustFontSize ==> !outcome.redraw,
        (decision is Copy || decision is Paste) && selection.start is None && selection.end is None
            && selection.pending_start is None && selection.pending_position is None
            && !selection.dragging ==> !outcome.redraw,
        decision is Input && modes.scrollback == 0 && selection_after(decision, event, selection)
            == selection && !selection.active() ==> !outcome.redraw,
        decision is Input && !event.pressed ==> !outcome.redraw,
        decision matches KeyDecision::Wheel { up, count } ==> (outcome.command
            matches KeyboardCommand::SendRepeated { bytes, count: times } ==> bytes@
            == mouse_report(
            UVec2 { x: modes.cursor_col as u32, y: modes.cursor_row as u32 },
            if up {
                64
            } else {
                65
            },
            false,
            modes.mouse_encoding,
        )),
{
}

} // verus!
