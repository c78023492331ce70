//! Mouse input: reports to the foreground program, selection, scrolling and the
//! grip on the terminal in space.

use vstd::prelude::*;

use crate::numbers::{decimal, is_digit, leading_decimal_is_unique, push_decimal};
use crate::presentation::{spatial, TerminalPresentationMode};
use crate::screen::{MouseProtocolEncoding, MouseProtocolMode};
use crate::selection::{cleared, TerminalSelection, UVec2};

verus! {

/// Whether the coordinates of a cell leave room for the offsets of a report.
pub open spec fn report_fits(cell: UVec2, encoding: MouseProtocolEncoding) -> bool {
    let room = if encoding == MouseProtocolEncoding::Sgr {
        1int
    } else {
        33
    };
    cell.x + room <= u32::MAX && cell.y + room <= u32::MAX
}

/// A coordinate as one byte of a report: offset by 33, and at most 255.
pub open spec fn coordinate_byte(coordinate: u32) -> u8 {
    if coordinate + 33 <= 255 {
        (coordinate + 33) as u8
    } else {
        255
    }
}

/// The button byte of a report: offset by 32, keeping the low eight bits.
pub open spec fn button_byte(button_code: u16) -> u8 {
    if button_code + 32 <= u16::MAX {
        ((button_code + 32) as u16) as u8
    } else {
        u16::MAX as u8
    }
}

/// The bytes that report a mouse event: `CSI < button ; column ; row M` or `m` in
/// the SGR encoding, and `CSI M` with three bytes otherwise, where every release
/// is reported as button 3.
pub open spec fn mouse_report(
    cell: UVec2,
    button_code: u16,
    release: bool,
    encoding: MouseProtocolEncoding,
) -> Seq<u8> {
    if encoding == MouseProtocolEncoding::Sgr {
        seq![0x1bu8, 0x5b, 0x3c] + decimal(button_code as nat) + seq![0x3bu8] + decimal(
            (cell.x + 1) as nat,
        ) + seq![0x3bu8] + decimal((cell.y + 1) as nat) + seq![
            if release {
                0x6du8
            } else {
                0x4du8
            },
        ]
    } else {
        seq![
            0x1bu8,
            0x5b,
            0x4d,
            button_byte(
                if release {
                    3
                } else {
                    button_code
                },
            ),
            coordinate_byte(cell.x),
            coordinate_byte(cell.y),
        ]
    }
}

/// Encodes a mouse event as terminal input.
pub fn encode_mouse_event(
    cell: UVec2,
    button_code: u16,
    release: bool,
    encoding: MouseProtocolEncoding,
) -> (bytes: Vec<u8>)
    requires
        report_fits(cell, encoding),
    ensures
        bytes@ == mouse_report(cell, button_code, release, encoding),
{
    let col: u32 = cell.x + 1;
    let row: u32 = cell.y + 1;
    let mut bytes: Vec<u8> = Vec::new();
    bytes.push(0x1b);
    bytes.push(0x5b);
    match encoding {
        MouseProtocolEncoding::Sgr => {
            bytes.push(0x3c);
            assert(bytes@ =~= seq![0x1bu8, 0x5b, 0x3c]);
            push_decimal(&mut bytes, button_code as u32);
            bytes.push(0x3b);
            push_decimal(&mut bytes, col);
            bytes.push(0x3b);
            push_decimal(&mut bytes, row);
            bytes.push(
                if release {
                    0x6d
                } else {
                    0x4d
                },
            );
        },
        MouseProtocolEncoding::Default | MouseProtocolEncoding::Utf8 => {
            let base: u16 = if release {
                3
            } else {
                button_code
            };
            let code: u16 = base.saturating_add(32);
            let x: u32 = if col + 32 <= 255 {
                col + 32
            } else {
                255
            };
            let y: u32 = if row + 32 <= 255 {
                row + 32
            } else {
                255
            };
            bytes.push(0x4d);
            bytes.push(code as u8);
            bytes.push(x as u8);
            bytes.push(y as u8);
        },
    }
    assert(bytes@ =~= mouse_report(cell, button_code, release, encoding));
    bytes
}

/// The button code of the wheel.
pub open spec fn wheel_code(up: bool) -> u16 {
    if up {
        64
    } else {
        65
    }
}

/// Encodes a turn of the wheel as terminal input.
pub fn encode_mouse_wheel(cell: UVec2, up: bool, encoding: MouseProtocolEncoding) -> (bytes: Vec<
    u8,
>)
    requires
        report_fits(cell, encoding),
    ensures
        bytes@ == mouse_report(cell, wheel_code(up), false, encoding),
{
    encode_mouse_event(
        cell,
        if up {
            64
        } else {
            65
        },
        false,
        encoding,
    )
}

/// Mouse buttons.
#[derive(Clone, Copy, PartialEq, Eq, Structural, Debug)]
pub enum MouseButton {
    /// The left button.
    Left,
    /// The middle button.
    Middle,
    /// The right button.
    Right,
    /// Any other button.
    Other,
}

/// What has been reported to the foreground program.
#[derive(Clone, Copy, PartialEq, Eq, Structural, Debug)]
pub struct ForwardedMouseState {
    /// Whether the left button is held.
    pub left_pressed: bool,
    /// Whether the middle button is held.
    pub middle_pressed: bool,
    /// Whether the right button is held.
    pub right_pressed: bool,
    /// Cell of the last report.
    pub last_cell: Option<UVec2>,
}

impl Default for ForwardedMouseState {
    fn default() -> (state: Self)
        ensures
            state == (ForwardedMouseState {
                left_pressed: false,
                middle_pressed: false,
                right_pressed: false,
                last_cell: None,
            }),
    {
        ForwardedMouseState {
            left_pressed: false,
            middle_pressed: false,
            right_pressed: false,
            last_cell: None,
        }
    }
}

/// How the pointer holds the terminal in space. `P` is a pointer position.
pub struct PlaneGrip<P> {
    /// Whether the pointer rotates the terminal.
    pub rotating: bool,
    /// Whether the pointer moves the camera.
    pub panning: bool,
    /// Pointer position that the next rotation starts from.
    pub last_rotate_cursor: Option<P>,
    /// Pointer position that the next camera motion starts from.
    pub last_pan_cursor: Option<P>,
}

/// The modes under which mouse events of one frame are handled.
#[derive(Clone, Copy, PartialEq, Eq, Structural, Debug)]
pub struct MouseFrame {
    /// How the terminal is presented.
    pub presentation: TerminalPresentationMode,
    /// Whether a transition of the Mobius strip is running.
    pub transition_active: bool,
    /// Requested mouse reporting.
    pub mouse_mode: MouseProtocolMode,
    /// Requested encoding of mouse reports.
    pub mouse_encoding: MouseProtocolEncoding,
}

impl MouseFrame {
    /// Whether the strip is animating, so that the mouse is ignored.
    pub open spec fn animating(self) -> bool {
        self.presentation == TerminalPresentationMode::Mobius3d && self.transition_active
    }

    /// Whether mouse events go to the foreground program.
    pub open spec fn forwarding(self) -> bool {
        self.presentation == TerminalPresentationMode::Flat2d && self.mouse_mode
            != MouseProtocolMode::Off
    }

    /// Tests whether the strip is animating, so that the mouse is ignored.
    pub fn mobius_animating(&self) -> (r: bool)
        ensures
            r == self.animating(),
    {
        self.presentation == TerminalPresentationMode::Mobius3d && self.transition_active
    }

    /// Tests whether mouse events go to the foreground program.
    pub fn forward_mouse(&self) -> (r: bool)
        ensures
            r == self.forwarding(),
    {
        self.presentation == TerminalPresentationMode::Flat2d && self.mouse_mode
            != MouseProtocolMode::Off
    }
}

/// What a pointer event asks for besides the change of state.
pub enum PointerCommand<P> {
    /// Nothing.
    Nothing,
    /// Send these bytes to the foreground program.
    Send(Vec<u8>),
    /// Rotate the terminal by the motion from this position.
    Rotate(P),
    /// Move the camera by the motion from this position.
    Pan(P),
}

/// The answer to a pointer event.
pub struct PointerOutcome<P> {
    /// What is to be done.
    pub command: PointerCommand<P>,
    /// Whether the terminal has to be drawn again.
    pub redraw: bool,
}

/// Whether a motion over a cell is reported.
pub open spec fn motion_reported(
    mode: MouseProtocolMode,
    forwarded: ForwardedMouseState,
    cell: UVec2,
) -> bool {
    &&& forwarded.last_cell != Some(cell)
    &&& match mode {
        MouseProtocolMode::ButtonMotion => forwarded.left_pressed || forwarded.middle_pressed
            || forwarded.right_pressed,
        MouseProtocolMode::AnyMotion => true,
        _ => false,
    }
}

/// The button code of a motion: 32 for the left button, 33 for the middle, 34 for
/// the right and 35 without a button.
pub open spec fn motion_code(forwarded: ForwardedMouseState) -> u16 {
    if forwarded.left_pressed {
        32
    } else if forwarded.middle_pressed {
        33
    } else if forwarded.right_pressed {
        34
    } else {
        35
    }
}

/// The bytes that a command sends.
pub open spec fn sends<P>(command: PointerCommand<P>, bytes: Seq<u8>) -> bool {
    command matches PointerCommand::Send(sent) && sent@ == bytes
}

/// What a pointer command means.
#[verifier::ext_equal]
pub enum PointerEffect<P> {
    /// Nothing.
    Nothing,
    /// Bytes for the foreground program.
    Send(Seq<u8>),
    /// A rotation by the motion from this position.
    Rotate(P),
    /// A motion of the camera by the motion from this position.
    Pan(P),
}

impl<P> PointerCommand<P> {
    /// What the command means.
    pub open spec fn effect(self) -> PointerEffect<P> {
        match self {
            PointerCommand::Nothing => PointerEffect::Nothing,
            PointerCommand::Send(bytes) => PointerEffect::Send(bytes@),
            PointerCommand::Rotate(from) => PointerEffect::Rotate(from),
            PointerCommand::Pan(from) => PointerEffect::Pan(from),
        }
    }
}

/// All that a pointer event leads to.
pub struct PointerAnswer<P> {
    /// The selection afterwards.
    pub selection: TerminalSelection<P>,
    /// The grip afterwards.
    pub grip: PlaneGrip<P>,
    /// The reported state afterwards.
    pub forwarded: ForwardedMouseState,
    /// What is to be done.
    pub effect: PointerEffect<P>,
    /// Whether the terminal has to be drawn again.
    pub redraw: bool,
}

/// What a motion of the pointer leads to.
pub open spec fn motion_answer<P>(
    frame: MouseFrame,
    selection: TerminalSelection<P>,
    grip: PlaneGrip<P>,
    forwarded: ForwardedMouseState,
    position: P,
    cell: Option<UVec2>,
    moved_far: bool,
) -> PointerAnswer<P> {
    let here = TerminalSelection { cursor_position: Some(position), ..selection };
    let still = PointerAnswer {
        selection: here,
        grip,
        forwarded,
        effect: PointerEffect::Nothing,
        redraw: false,
    };
    if frame.animating() {
        still
    } else if spatial(frame.presentation) {
        if grip.rotating {
            PointerAnswer {
                grip: PlaneGrip { last_rotate_cursor: Some(position), ..grip },
                effect: match grip.last_rotate_cursor {
                    Some(last) => PointerEffect::Rotate(last),
                    None => PointerEffect::Nothing,
                },
                redraw: grip.last_rotate_cursor is Some,
                ..still
            }
        } else if grip.panning {
            PointerAnswer {
                grip: PlaneGrip { last_pan_cursor: Some(position), ..grip },
                effect: match grip.last_pan_cursor {
                    Some(last) => PointerEffect::Pan(last),
                    None => PointerEffect::Nothing,
                },
                redraw: grip.last_pan_cursor is Some,
                ..still
            }
        } else {
            still
        }
    } else if frame.forwarding() {
        match cell {
            Some(at) if motion_reported(frame.mouse_mode, forwarded, at) => PointerAnswer {
                forwarded: ForwardedMouseState { last_cell: cell, ..forwarded },
                effect: PointerEffect::Send(
                    mouse_report(at, motion_code(forwarded), false, frame.mouse_encoding),
                ),
                ..still
            },
            _ => still,
        }
    } else {
        match cell {
            Some(at) => PointerAnswer {
                selection: here.moved(at, moved_far),
                redraw: here.moves(at, moved_far),
                ..still
            },
            None => still,
        }
    }
}

/// Handles a motion of the pointer to `position`, which lies over `cell` if over
/// any. `moved_far` says whether the pointer has left the drag threshold around a
/// waiting press.
pub fn cursor_moved<P: Copy>(
    frame: &MouseFrame,
    selection: &mut TerminalSelection<P>,
    grip: &mut PlaneGrip<P>,
    forwarded: &mut ForwardedMouseState,
    position: P,
    cell: Option<UVec2>,
    moved_far: bool,
) -> (outcome: PointerOutcome<P>)
    requires
        frame.forwarding() && cell is Some && motion_reported(
            frame.mouse_mode,
            *old(forwarded),
            cell->0,
        ) ==> report_fits(cell->0, frame.mouse_encoding),
    ensures
        ({
            let here = TerminalSelection { cursor_position: Some(position), ..*old(selection) };
            if frame.animating() {
                &&& *final(selection) == here
                &&& *final(grip) == *old(grip)
                &&& *final(forwarded) == *old(forwarded)
                &&& outcome.command is Nothing
                &&& !outcome.redraw
            } else if spatial(frame.presentation) {
                &&& *final(selection) == here
                &&& *final(forwarded) == *old(forwarded)
                &&& if old(grip).rotating {
                    &&& *final(grip) == (PlaneGrip {
                        last_rotate_cursor: Some(position),
                        ..*old(grip)
                    })
                    &&& outcome.command == (match old(grip).last_rotate_cursor {
                        Some(last) => PointerCommand::Rotate(last),
                        None => PointerCommand::Nothing,
                    })
                    &&& outcome.redraw == old(grip).last_rotate_cursor is Some
                } else if old(grip).panning {
                    &&& *final(grip) == (PlaneGrip { last_pan_cursor: Some(position), ..*old(grip) })
                    &&& outcome.command == (match old(grip).last_pan_cursor {
                        Some(last) => PointerCommand::Pan(last),
                        None => PointerCommand::Nothing,
                    })
                    &&& outcome.redraw == old(grip).last_pan_cursor is Some
                } else {
                    &&& *final(grip) == *old(grip)
                    &&& outcome.command is Nothing
                    &&& !outcome.redraw
                }
            } else if frame.forwarding() {
                &&& *final(selection) == here
                &&& *final(grip) == *old(grip)
                &&& !outcome.redraw
                &&& if cell is Some && motion_reported(frame.mouse_mode, *old(forwarded), cell->0) {
                    &&& sends(
                        outcome.command,
                        mouse_report(
                            cell->0,
                            motion_code(*old(forwarded)),
                            false,
                            frame.mouse_encoding,
                        ),
                    )
                    &&& *final(forwarded) == (ForwardedMouseState {
                        last_cell: cell,
                        ..*old(forwarded)
                    })
                } else {
                    &&& outcome.command is Nothing
                    &&& *final(forwarded) == *old(forwarded)
                }
            } else {
                &&& *final(grip) == *old(grip)
                &&& *final(forwarded) == *old(forwarded)
                &&& outcome.command is Nothing
                &&& match cell {
                    Some(cell) => {
                        &&& *final(selection) == here.moved(cell, moved_far)
                        &&& outcome.redraw == here.moves(cell, moved_far)
                    },
                    None => {
                        &&& *final(selection) == here
                        &&& !outcome.redraw
                    },
                }
            }
        }),
        motion_answer(
            *frame,
            *old(selection),
            *old(grip),
            *old(forwarded),
            position,
            cell,
            moved_far,
        ) == (PointerAnswer {
            selection: *final(selection),
            grip: *final(grip),
            forwarded: *final(forwarded),
            effect: outcome.command.effect(),
            redraw: outcome.redraw,
        }),
        old(selection).wf() ==> final(selection).wf(),
{
    selection.set_cursor_position(position);
    if frame.mobius_animating() {
        return PointerOutcome { command: PointerCommand::Nothing, redraw: false };
    }
    if frame.presentation == TerminalPresentationMode::Plane3d || frame.presentation
        == TerminalPresentationMode::Mobius3d {
        if grip.rotating {
            let last = grip.last_rotate_cursor;
            grip.last_rotate_cursor = Some(position);
            if let Some(last) = last {
                return PointerOutcome { command: PointerCommand::Rotate(last), redraw: true };
            }
        } else if grip.panning {
            let last = grip.last_pan_cursor;
            grip.last_pan_cursor = Some(position);
            if let Some(last) = last {
                return PointerOutcome { command: PointerCommand::Pan(last), redraw: true };
            }
        }
    } else if frame.forward_mouse() {
        if let Some(cell) = cell {
            let fresh = match forwarded.last_cell {
                Some(last) => last != cell,
                None => true,
            };
            let held = forwarded.left_pressed || forwarded.middle_pressed
                || forwarded.right_pressed;
            let wanted = match frame.mouse_mode {
                MouseProtocolMode::ButtonMotion => held,
                MouseProtocolMode::AnyMotion => true,
                _ => false,
            };
            if fresh && wanted {
                let button_code: u16 = if forwarded.left_pressed {
                    32
                } else if forwarded.middle_pressed {
                    33
                } else if forwarded.right_pressed {
                    34
                } else {
                    35
                };
                let bytes = encode_mouse_event(cell, button_code, false, frame.mouse_encoding);
                forwarded.last_cell = Some(cell);
                return PointerOutcome { command: PointerCommand::Send(bytes), redraw: false };
            }
        }
    } else if selection.dragging || selection.pending_start.is_some() {
        if let Some(cell) = cell {
            let redraw = selection.update_from_cursor(cell, moved_far);
            return PointerOutcome { command: PointerCommand::Nothing, redraw };
        }
    }
    PointerOutcome { command: PointerCommand::Nothing, redraw: false }
}

/// The button code of a button that is reported.
pub open spec fn button_code(button: MouseButton) -> Option<u16> {
    match button {
        MouseButton::Left => Some(0),
        MouseButton::Middle => Some(1),
        MouseButton::Right => Some(2),
        MouseButton::Other => None,
    }
}

/// The reported state after a button went down or up over a cell.
pub open spec fn button_forwarded(
    forwarded: ForwardedMouseState,
    button: MouseButton,
    pressed: bool,
    cell: Option<UVec2>,
) -> ForwardedMouseState {
    ForwardedMouseState {
        left_pressed: if button == MouseButton::Left {
            pressed
        } else {
            forwarded.left_pressed
        },
        middle_pressed: if button == MouseButton::Middle {
            pressed
        } else {
            forwarded.middle_pressed
        },
        right_pressed: if button == MouseButton::Right {
            pressed
        } else {
            forwarded.right_pressed
        },
        last_cell: if cell is Some && button != MouseButton::Other {
            cell
        } else {
            forwarded.last_cell
        },
    }
}

/// The grip after a button went down or up over the terminal in space.
pub open spec fn button_gripped<P>(
    grip: PlaneGrip<P>,
    button: MouseButton,
    pressed: bool,
    cursor: Option<P>,
) -> PlaneGrip<P> {
    match button {
        MouseButton::Left => PlaneGrip { rotating: pressed, last_rotate_cursor: cursor, ..grip },
        MouseButton::Right => PlaneGrip { panning: pressed, last_pan_cursor: cursor, ..grip },
        _ => grip,
    }
}

/// What a mouse button leads to.
pub open spec fn button_answer<P>(
    frame: MouseFrame,
    selection: TerminalSelection<P>,
    grip: PlaneGrip<P>,
    forwarded: ForwardedMouseState,
    button: MouseButton,
    pressed: bool,
    pointer_cell: Option<UVec2>,
    selection_cell: Option<UVec2>,
) -> PointerAnswer<P> {
    let still = PointerAnswer {
        selection,
        grip,
        forwarded,
        effect: PointerEffect::Nothing,
        redraw: false,
    };
    if frame.animating() {
        still
    } else if frame.forwarding() {
        PointerAnswer {
            forwarded: button_forwarded(forwarded, button, pressed, pointer_cell),
            effect: match (pointer_cell, button_code(button)) {
                (Some(cell), Some(code)) => PointerEffect::Send(
                    mouse_report(cell, code, !pressed, frame.mouse_encoding),
                ),
                _ => PointerEffect::Nothing,
            },
            ..still
        }
    } else if spatial(frame.presentation) {
        PointerAnswer {
            grip: button_gripped(grip, button, pressed, selection.cursor_position),
            ..still
        }
    } else if button == MouseButton::Left && pressed {
        match (selection.cursor_position, selection_cell) {
            (Some(position), Some(cell)) => PointerAnswer {
                selection: selection.armed(cell, position),
                redraw: selection.shown(),
                ..still
            },
            _ => still,
        }
    } else if button == MouseButton::Left {
        PointerAnswer { selection: selection.released(), ..still }
    } else {
        still
    }
}

/// Handles a mouse button. `pointer_cell` is the cell under the pointer, and
/// `selection_cell` the cell under the last known pointer position of the
/// selection.
pub fn button_changed<P: Copy>(
    frame: &MouseFrame,
    selection: &mut TerminalSelection<P>,
    grip: &mut PlaneGrip<P>,
    forwarded: &mut ForwardedMouseState,
    button: MouseButton,
    pressed: bool,
    pointer_cell: Option<UVec2>,
    selection_cell: Option<UVec2>,
) -> (outcome: PointerOutcome<P>)
    requires
        frame.forwarding() && pointer_cell is Some && button_code(button) is Some ==> report_fits(
            pointer_cell->0,
            frame.mouse_encoding,
        ),
    ensures
        if frame.animating() {
            &&& *final(selection) == *old(selection)
            &&& *final(grip) == *old(grip)
            &&& *final(forwarded) == *old(forwarded)
            &&& outcome.command is Nothing
            &&& !outcome.redraw
        } else if frame.forwarding() {
            &&& *final(selection) == *old(selection)
            &&& *final(grip) == *old(grip)
            &&& *final(forwarded) == button_forwarded(*old(forwarded), button, pressed, pointer_cell)
            &&& !outcome.redraw
            &&& if pointer_cell is Some && button_code(button) is Some {
                sends(
                    outcome.command,
                    mouse_report(
                        pointer_cell->0,
                        button_code(button)->0,
                        !pressed,
                        frame.mouse_encoding,
                    ),
                )
            } else {
                outcome.command is Nothing
            }
        } else if spatial(frame.presentation) {
            &&& *final(selection) == *old(selection)
            &&& *final(grip) == button_gripped(
                *old(grip),
                button,
                pressed,
                old(selection).cursor_position,
            )
            &&& *final(forwarded) == *old(forwarded)
            &&& outcome.command is Nothing
            &&& !outcome.redraw
        } else {
            &&& *final(grip) == *old(grip)
            &&& *final(forwarded) == *old(forwarded)
            &&& outcome.command is Nothing
            &&& if button == MouseButton::Left && pressed {
                match (old(selection).cursor_position, selection_cell) {
                    (Some(position), Some(cell)) => {
                        &&& *final(selection) == (TerminalSelection {
                            start: None,
                            end: None,
                            pending_start: Some(cell),
                            pending_position: Some(position),
                            dragging: false,
                            cursor_position: Some(position),
                        })
                        &&& outcome.redraw == (old(selection).start is Some || old(
                            selection,
                        ).end is Some || old(selection).dragging)
                    },
                    _ => {
                        &&& *final(selection) == *old(selection)
                        &&& !outcome.redraw
                    },
                }
            } else if button == MouseButton::Left {
                &&& *final(selection) == (TerminalSelection {
                    pending_start: None,
                    pending_position: None,
                    dragging: false,
                    ..*old(selection)
                })
                &&& !outcome.redraw
            } else {
                &&& *final(selection) == *old(selection)
                &&& !outcome.redraw
            }
        },
        button_answer(
            *frame,
            *old(selection),
            *old(grip),
            *old(forwarded),
            button,
            pressed,
            pointer_cell,
            selection_cell,
        ) == (PointerAnswer {
            selection: *final(selection),
            grip: *final(grip),
            forwarded: *final(forwarded),
            effect: outcome.command.effect(),
            redraw: outcome.redraw,
        }),
        old(selection).wf() ==> final(selection).wf(),
{
    if frame.mobius_animating() {
        return PointerOutcome { command: PointerCommand::Nothing, redraw: false };
    }
    if frame.forward_mouse() {
        let code: u16 = match button {
            MouseButton::Left => {
                forwarded.left_pressed = pressed;
                0
            },
            MouseButton::Middle => {
                forwarded.middle_pressed = pressed;
                1
            },
            MouseButton::Right => {
                forwarded.right_pressed = pressed;
                2
            },
            MouseButton::Other => {
                return PointerOutcome { command: PointerCommand::Nothing, redraw: false };
            },
        };
        if let Some(cell) = pointer_cell {
            let bytes = encode_mouse_event(cell, code, !pressed, frame.mouse_encoding);
            forwarded.last_cell = Some(cell);
            return PointerOutcome { command: PointerCommand::Send(bytes), redraw: false };
        }
        return PointerOutcome { command: PointerCommand::Nothing, redraw: false };
    }
    let in_space = frame.presentation == TerminalPresentationMode::Plane3d || frame.presentation
        == TerminalPresentationMode::Mobius3d;
    match button {
        MouseButton::Left => {
            if in_space {
                grip.rotating = pressed;
                grip.last_rotate_cursor = selection.cursor_position();
            } else if pressed {
                if let Some(position) = selection.cursor_position() {
                    if let Some(cell) = selection_cell {
                        let redraw = selection.begin_pending(cell, position);
                        return PointerOutcome { command: PointerCommand::Nothing, redraw };
                    }
                }
            } else {
                selection.end();
            }
        },
        MouseButton::Right => {
            if in_space {
                grip.panning = pressed;
                grip.last_pan_cursor = selection.cursor_position();
            }
        },
        _ => {},
    }
    PointerOutcome { command: PointerCommand::Nothing, redraw: false }
}

/// The direction of a turn of the wheel. A turn that is neither zero nor a number
/// has no sign.
#[derive(Clone, Copy, PartialEq, Eq, Structural, Debug)]
pub struct WheelDelta {
    /// Whether the wheel turned at all.
    pub nonzero: bool,
    /// Whether it turned up.
    pub positive: bool,
    /// Whether it turned down.
    pub negative: bool,
}

/// Where a turn of the wheel goes.
#[derive(Clone, Copy, PartialEq, Eq, Structural, Debug)]
pub enum WheelRoute {
    /// Nowhere.
    Ignore,
    /// To the foreground program.
    Report {
        /// Whether it is reported as a turn up.
        up: bool,
    },
    /// To the history of the terminal.
    Scroll,
    /// To the camera.
    Zoom,
}

/// Where a turn of the wheel goes.
pub open spec fn wheel_goes(frame: MouseFrame, alternate_screen: bool, delta: WheelDelta) -> WheelRoute {
    if frame.animating() {
        WheelRoute::Ignore
    } else if frame.forwarding() && delta.nonzero {
        WheelRoute::Report { up: delta.positive }
    } else if frame.presentation == TerminalPresentationMode::Flat2d && !alternate_screen {
        WheelRoute::Scroll
    } else if spatial(frame.presentation) && delta.nonzero {
        WheelRoute::Zoom
    } else {
        WheelRoute::Ignore
    }
}

/// Decides where a turn of the wheel goes.
pub fn wheel_route(frame: &MouseFrame, alternate_screen: bool, delta: WheelDelta) -> (route:
    WheelRoute)
    ensures
        route == wheel_goes(*frame, alternate_screen, delta),
{
    if frame.mobius_animating() {
        return WheelRoute::Ignore;
    }
    if frame.forward_mouse() && delta.nonzero {
        return WheelRoute::Report { up: delta.positive };
    }
    if frame.presentation == TerminalPresentationMode::Flat2d {
        if alternate_screen {
            WheelRoute::Ignore
        } else {
            WheelRoute::Scroll
        }
    } else if delta.nonzero {
        WheelRoute::Zoom
    } else {
        WheelRoute::Ignore
    }
}

/// How far a turn of the wheel by lines scrolls: back into the history, or forward
/// where the wheel turned down.
pub open spec fn lines_turned(lines: int, delta: WheelDelta) -> int {
    if delta.negative {
        -lines
    } else {
        lines
    }
}

/// How far a turn of the wheel by lines scrolls.
pub fn line_scroll_amount(lines: usize, delta: WheelDelta) -> (amount: isize)
    requires
        lines <= isize::MAX,
    ensures
        amount == (if delta.negative {
            -lines
        } else {
            lines as int
        }),
        amount == lines_turned(lines as int, delta),
{
    let lines: isize = lines as isize;
    if delta.negative {
        -lines
    } else {
        lines
    }
}

/// The history position after scrolling from `current` by `amount` lines.
pub open spec fn scrolled(current: int, amount: int) -> int {
    if current + amount < 0 {
        0
    } else {
        current + amount
    }
}

/// The history position and the selection after scrolling through the history by a
/// number of lines. There is no new position where the number is zero.
pub open spec fn history_scrolled<P>(
    selection: TerminalSelection<P>,
    current: int,
    amount: int,
) -> (Option<int>, TerminalSelection<P>) {
    if amount == 0 {
        (None, selection)
    } else {
        (Some(scrolled(current, amount)), cleared::<P>())
    }
}

/// Scrolling ends the selection and moves by its amount, but never before the start
/// of the history; scrolling by nothing leaves everything as it is.
pub proof fn scrolling_ends_the_selection<P>(
    selection: TerminalSelection<P>,
    current: int,
    amount: int,
)
    requires
        current >= 0,
    ensures
        ({
            let (next, after) = history_scrolled(selection, current, amount);
            &&& amount == 0 ==> next is None && after == selection
            &&& amount != 0 ==> next is Some && !after.active() && after.bounds() is None
            &&& amount > 0 ==> next->0 == current + amount
            &&& amount < 0 && current + amount >= 0 ==> next->0 == current + amount
            &&& amount < 0 && current + amount < 0 ==> next->0 == 0
        }),
{
}

/// Scrolls through the history, which ends the selection. Returns the new
/// history position, or nothing where the amount is zero.
pub fn scroll_history<P>(
    selection: &mut TerminalSelection<P>,
    current: usize,
    amount: isize,
) -> (next: Option<usize>)
    requires
        current <= isize::MAX,
        current + amount <= isize::MAX,
    ensures
        if amount == 0 {
            &&& next is None
            &&& *final(selection) == *old(selection)
        } else {
            &&& next matches Some(next) && next == scrolled(current as int, amount as int)
            &&& *final(selection) == cleared::<P>()
        },
        ({
            let (position, after) = history_scrolled(
                *old(selection),
                current as int,
                amount as int,
            );
            &&& *final(selection) == after
            &&& next is Some <==> position is Some
            &&& next is Some ==> next->0 == position->0
        }),
{
    if amount == 0 {
        return None;
    }
    let target: isize = current as isize + amount;
    selection.clear();
    Some(
        if target < 0 {
            0
        } else {
            target as usize
        },
    )
}

/// A report in the SGR encoding, cut after its separators.
spec fn sgr_fields(cell: UVec2, button_code: u16, release: bool) -> Seq<u8> {
    sgr_field(
        0x3c,
        button_code as nat,
        sgr_field(
            0x3b,
            (cell.x + 1) as nat,
            sgr_field(0x3b, (cell.y + 1) as nat, seq![sgr_final(release)]),
        ),
    )
}

spec fn sgr_field(separator: u8, number: nat, rest: Seq<u8>) -> Seq<u8> {
    seq![separator] + (decimal(number) + rest)
}

spec fn sgr_final(release: bool) -> u8 {
    if release {
        0x6d
    } else {
        0x4d
    }
}

proof fn lemma_sgr_fields(cell: UVec2, button_code: u16, release: bool)
    ensures
        mouse_report(cell, button_code, release, MouseProtocolEncoding::Sgr) == seq![0x1bu8, 0x5b]
            + sgr_fields(cell, button_code, release),
{
    let report = mouse_report(cell, button_code, release, MouseProtocolEncoding::Sgr);
    let button = decimal(button_code as nat);
    let col = decimal((cell.x + 1) as nat);
    let row = decimal((cell.y + 1) as nat);
    let end = seq![sgr_final(release)];
    assert(report == seq![0x1bu8, 0x5b, 0x3c] + button + seq![0x3bu8] + col + seq![0x3bu8] + row
        + end);
    assert(report =~= seq![0x1bu8, 0x5b] + (seq![0x3cu8] + (button + (seq![0x3bu8] + (col + (
    seq![0x3bu8] + (row + end)))))));
}

proof fn lemma_sgr_field(separator: u8, a: nat, after_a: Seq<u8>, b: nat, after_b: Seq<u8>)
    requires
        sgr_field(separator, a, after_a) == sgr_field(separator, b, after_b),
        after_a.len() > 0,
        after_b.len() > 0,
        !is_digit(after_a[0]),
        !is_digit(after_b[0]),
    ensures
        a == b,
        after_a == after_b,
{
    assert(sgr_field(separator, a, after_a).skip(1) =~= decimal(a) + after_a);
    assert(sgr_field(separator, b, after_b).skip(1) =~= decimal(b) + after_b);
    leading_decimal_is_unique(a, after_a, b, after_b);
}

/// A report in the SGR encoding tells its button, its cell and whether it is a
/// release: two different events are never reported alike.
pub proof fn sgr_reports_are_told_apart(
    left: UVec2,
    left_button: u16,
    left_release: bool,
    right: UVec2,
    right_button: u16,
    right_release: bool,
)
    requires
        mouse_report(left, left_button, left_release, MouseProtocolEncoding::Sgr) == mouse_report(
            right,
            right_button,
            right_release,
            MouseProtocolEncoding::Sgr,
        ),
    ensures
        left == right,
        left_button == right_button,
        left_release == right_release,
{
    lemma_sgr_fields(left, left_button, left_release);
    lemma_sgr_fields(right, right_button, right_release);
    let a3 = seq![sgr_final(left_release)];
    let b3 = seq![sgr_final(right_release)];
    let a2 = sgr_field(0x3b, (left.y + 1) as nat, a3);
    let b2 = sgr_field(0x3b, (right.y + 1) as nat, b3);
    let a1 = sgr_field(0x3b, (left.x + 1) as nat, a2);
    let b1 = sgr_field(0x3b, (right.x + 1) as nat, b2);
    let a0 = sgr_fields(left, left_button, left_release);
    let b0 = sgr_fields(right, right_button, right_release);
    assert((seq![0x1bu8, 0x5b] + a0).skip(2) =~= a0);
    assert((seq![0x1bu8, 0x5b] + b0).skip(2) =~= b0);
    lemma_sgr_field(0x3c, left_button as nat, a1, right_button as nat, b1);
    lemma_sgr_field(0x3b, (left.x + 1) as nat, a2, (right.x + 1) as nat, b2);
    lemma_sgr_field(0x3b, (left.y + 1) as nat, a3, (right.y + 1) as nat, b3);
    assert(a3[0] == b3[0]);
}

/// A motion that stays on the cell of the last report is not reported, whatever
/// the program asked for.
pub proof fn motion_within_a_cell_is_silent(
    mode: MouseProtocolMode,
    forwarded: ForwardedMouseState,
    cell: UVec2,
)
    ensures
        !motion_reported(mode, ForwardedMouseState { last_cell: Some(cell), ..forwarded }, cell),
{
}

/// Releasing a button leaves every other button as the press found it.
pub proof fn releases_undo_presses(
    forwarded: ForwardedMouseState,
    button: MouseButton,
    down: Option<UVec2>,
    up: Option<UVec2>,
)
    ensures
        ({
            let after = button_forwarded(
                button_forwarded(forwarded, button, true, down),
                button,
                false,
                up,
            );
            &&& after.left_pressed == (forwarded.left_pressed && button != MouseButton::Left)
            &&& after.middle_pressed == (forwarded.middle_pressed && button != MouseButton::Middle)
            &&& after.right_pressed == (forwarded.right_pressed && button != MouseButton::Right)
        }),
{
}

/// Scrolling back down by what was scrolled up returns to the same place.
pub proof fn scrolling_down_undoes_scrolling_up(current: usize, amount: usize)
    ensures
        scrolled(scrolled(current as int, amount as int), -(amount as int)) == current,
{
}

/// A report in the SGR encoding, byte by byte: CSI, a less-than sign, the button,
/// the column and the row counted from one with semicolons between them, and `M`
/// for a press or `m` for a release.
pub proof fn sgr_reports(cell: UVec2, button_code: u16, release: bool)
    ensures
        ({
            let report = mouse_report(cell, button_code, release, MouseProtocolEncoding::Sgr);
            report == seq![0x1bu8, 0x5b, 0x3c] + decimal(button_code as nat) + seq![0x3bu8]
                + decimal(cell.x as nat + 1) + seq![0x3bu8] + decimal(cell.y as nat + 1) + seq![
                if release {
                    0x6du8
                } else {
                    0x4du8
                },
            ]
        }),
{
}

/// A report in the other encodings, byte by byte: CSI, `M`, the button offset by
/// 32, and the column and the row counted from one and offset by 32. A release
/// names button 3, and a byte does not exceed 255.
pub proof fn byte_reports(
    cell: UVec2,
    button_code: u16,
    release: bool,
    encoding: MouseProtocolEncoding,
)
    requires
        encoding != MouseProtocolEncoding::Sgr,
        button_code <= 223,
    ensures
        ({
            let report = mouse_report(cell, button_code, release, encoding);
            &&& report.len() == 6
            &&& report[0] == 27 && report[1] == 91 && report[2] == 77
            &&& report[3] == (if release {
                35int
            } else {
                button_code + 32
            })
            &&& cell.x < 223 ==> report[4] - 32 == cell.x + 1
            &&& cell.x >= 222 ==> report[4] == 255
            &&& cell.y < 223 ==> report[5] - 32 == cell.y + 1
            &&& cell.y >= 222 ==> report[5] == 255
        }),
{
    let code = if release {
        3u16
    } else {
        button_code
    };
    assert(code + 32 <= 255);
}

/// The buttons are numbered zero, one and two from left to right; a motion adds 32
/// to the button that is held, and to three where none is; the wheel is 64 upwards
/// and 65 downwards.
pub proof fn buttons_are_numbered(button: MouseButton, last_cell: Option<UVec2>)
    ensures
        button_code(button) == (match button {
            MouseButton::Left => Some(0u16),
            MouseButton::Middle => Some(1u16),
            MouseButton::Right => Some(2u16),
            MouseButton::Other => None,
        }),
        motion_code(
            button_forwarded(
                ForwardedMouseState {
                    left_pressed: false,
                    middle_pressed: false,
                    right_pressed: false,
                    last_cell,
                },
                button,
                true,
                None,
            ),
        ) == 32 + (match button_code(button) {
            Some(code) => code,
            None => 3u16,
        }),
        wheel_code(true) == 64,
        wheel_code(false) == 65,
{
}

/// Of several held buttons the leftmost is named by a motion.
pub proof fn motions_name_the_leftmost_button(forwarded: ForwardedMouseState)
    ensures
        32 <= motion_code(forwarded) <= 35,
        motion_code(forwarded) == 32 <==> forwarded.left_pressed,
        motion_code(forwarded) == 33 ==> forwarded.middle_pressed,
        motion_code(forwarded) == 34 ==> forwarded.right_pressed && !forwarded.middle_pressed,
        motion_code(forwarded) == 35 <==> !forwarded.left_pressed && !forwarded.middle_pressed
            && !forwarded.right_pressed,
{
}

/// A click of each button over a cell sends the report of its number, press and
/// release told apart; it changes neither the selection nor the grip.
pub proof fn clicks_are_reported<P>(
    frame: MouseFrame,
    selection: TerminalSelection<P>,
    grip: PlaneGrip<P>,
    forwarded: ForwardedMouseState,
    button: MouseButton,
    pressed: bool,
    cell: UVec2,
    selection_cell: Option<UVec2>,
)
    requires
        frame.presentation == TerminalPresentationMode::Flat2d,
        frame.mouse_mode != MouseProtocolMode::Off,
        frame.mouse_encoding == MouseProtocolEncoding::Sgr,
        button != MouseButton::Other,
    ensures
        ({
            let answer = button_answer(
                frame,
                selection,
                grip,
                forwarded,
                button,
                pressed,
                Some(cell),
                selection_cell,
            );
            let number = match button {
                MouseButton::Left => 0x30u8,
                MouseButton::Middle => 0x31u8,
                _ => 0x32u8,
            };
            let last = if pressed {
                0x4du8
            } else {
                0x6du8
            };
            &&& answer.effect == PointerEffect::<P>::Send(
                seq![0x1bu8, 0x5b, 0x3c, number, 0x3b] + decimal(cell.x as nat + 1) + seq![0x3bu8]
                    + decimal(cell.y as nat + 1) + seq![last],
            )
            &&& answer.selection == selection
            &&& answer.grip == grip
            &&& !answer.redraw
            &&& answer.forwarded.last_cell == Some(cell)
            &&& answer.forwarded.left_pressed == (if button == MouseButton::Left {
                pressed
            } else {
                forwarded.left_pressed
            })
            &&& answer.forwarded.middle_pressed == (if button == MouseButton::Middle {
                pressed
            } else {
                forwarded.middle_pressed
            })
            &&& answer.forwarded.right_pressed == (if button == MouseButton::Right {
                pressed
            } else {
                forwarded.right_pressed
            })
        }),
{
    let code = button_code(button)->0;
    assert(decimal(code as nat) =~= seq![(0x30 + code) as u8]);
    let last = if pressed {
        0x4du8
    } else {
        0x6du8
    };
    assert(mouse_report(cell, code, !pressed, MouseProtocolEncoding::Sgr) =~= seq![
        0x1bu8,
        0x5b,
        0x3c,
        (0x30 + code) as u8,
        0x3b,
    ] + decimal(cell.x as nat + 1) + seq![0x3bu8] + decimal(cell.y as nat + 1) + seq![last]);
}

/// A button is reported in every encoding as the event that it is: its number, a
/// release where it went up, over the cell under the pointer. Other buttons, and
/// clicks outside the cells, are not reported.
pub proof fn only_known_clicks_are_reported<P>(
    frame: MouseFrame,
    selection: TerminalSelection<P>,
    grip: PlaneGrip<P>,
    forwarded: ForwardedMouseState,
    button: MouseButton,
    pressed: bool,
    pointer_cell: Option<UVec2>,
    selection_cell: Option<UVec2>,
)
    ensures
        ({
            let answer = button_answer(
                frame,
                selection,
                grip,
                forwarded,
                button,
                pressed,
                pointer_cell,
                selection_cell,
            );
            let reports = frame.presentation == TerminalPresentationMode::Flat2d
                && frame.mouse_mode != MouseProtocolMode::Off;
            &&& answer.effect is Send <==> reports && pointer_cell is Some && button
                != MouseButton::Other
            &&& answer.effect matches PointerEffect::Send(bytes) ==> bytes == mouse_report(
                pointer_cell->0,
                if button == MouseButton::Left {
                    0
                } else if button == MouseButton::Middle {
                    1
                } else {
                    2
                },
                !pressed,
                frame.mouse_encoding,
            )
            &&& reports ==> answer.selection == selection && answer.grip == grip && !answer.redraw
            &&& !reports ==> answer.forwarded == forwarded
            &&& !(answer.effect is Send) ==> answer.effect is Nothing
        }),
{
}

/// In space the left button turns the terminal and the right button moves the
/// camera, from where the pointer is; on the strip this waits for a running
/// transition. Nothing else changes.
pub proof fn buttons_grip_the_plane<P>(
    frame: MouseFrame,
    selection: TerminalSelection<P>,
    grip: PlaneGrip<P>,
    forwarded: ForwardedMouseState,
    button: MouseButton,
    pressed: bool,
    pointer_cell: Option<UVec2>,
    selection_cell: Option<UVec2>,
)
    requires
        frame.presentation != TerminalPresentationMode::Flat2d,
    ensures
        ({
            let answer = button_answer(
                frame,
                selection,
                grip,
                forwarded,
                button,
                pressed,
                pointer_cell,
                selection_cell,
            );
            let waits = frame.presentation == TerminalPresentationMode::Mobius3d
                && frame.transition_active;
            let turns = button == MouseButton::Left && !waits;
            let moves = button == MouseButton::Right && !waits;
            &&& answer.grip.rotating == (if turns {
                pressed
            } else {
                grip.rotating
            })
            &&& answer.grip.last_rotate_cursor == (if turns {
                selection.cursor_position
            } else {
                grip.last_rotate_cursor
            })
            &&& answer.grip.panning == (if moves {
                pressed
            } else {
                grip.panning
            })
            &&& answer.grip.last_pan_cursor == (if moves {
                selection.cursor_position
            } else {
                grip.last_pan_cursor
            })
            &&& answer.selection == selection
            &&& answer.forwarded == forwarded
            &&& answer.effect is Nothing
            &&& !answer.redraw
        }),
{
}

/// On a flat terminal without mouse reports, a press of the left button drops the
/// selection and waits at its cell; its release ends the drag and keeps what is
/// selected. Other buttons do nothing.
pub proof fn left_button_selects<P>(
    frame: MouseFrame,
    selection: TerminalSelection<P>,
    grip: PlaneGrip<P>,
    forwarded: ForwardedMouseState,
    button: MouseButton,
    pressed: bool,
    pointer_cell: Option<UVec2>,
    selection_cell: Option<UVec2>,
)
    requires
        frame.presentation == TerminalPresentationMode::Flat2d,
        frame.mouse_mode == MouseProtocolMode::Off,
    ensures
        ({
            let answer = button_answer(
                frame,
                selection,
                grip,
                forwarded,
                button,
                pressed,
                pointer_cell,
                selection_cell,
            );
            let after = answer.selection;
            &&& after.cursor_position == selection.cursor_position
            &&& answer.effect is Nothing
            &&& answer.grip == grip
            &&& if button == MouseButton::Left && pressed && selection.cursor_position is Some
                && selection_cell is Some {
                &&& after.bounds() is None && after.end is None && !after.dragging
                &&& after.pending_start == selection_cell
                &&& after.pending_position == selection.cursor_position
                &&& answer.redraw <==> selection.start is Some || selection.end is Some
                    || selection.dragging
            } else if button == MouseButton::Left && !pressed {
                &&& after.start == selection.start && after.end == selection.end
                &&& !after.dragging && after.pending_start is None && after.pending_position is None
                &&& !answer.redraw
            } else {
                after == selection && !answer.redraw
            }
        }),
{
}

/// A motion always leaves the pointer where it went, and reports it to the program
/// exactly where reports are wanted and the cell is a new one: with any motion, or
/// with a held button. The report is one of the button that is held.
pub proof fn motions_are_reported<P>(
    frame: MouseFrame,
    selection: TerminalSelection<P>,
    grip: PlaneGrip<P>,
    forwarded: ForwardedMouseState,
    position: P,
    cell: Option<UVec2>,
    moved_far: bool,
)
    ensures
        ({
            let answer = motion_answer(
                frame,
                selection,
                grip,
                forwarded,
                position,
                cell,
                moved_far,
            );
            let held = forwarded.left_pressed || forwarded.middle_pressed
                || forwarded.right_pressed;
            let wanted = frame.presentation == TerminalPresentationMode::Flat2d && (
            frame.mouse_mode == MouseProtocolMode::AnyMotion || (frame.mouse_mode
                == MouseProtocolMode::ButtonMotion && held));
            &&& answer.selection.cursor_position == Some(position)
            &&& answer.effect is Send <==> wanted && cell is Some && forwarded.last_cell != cell
            &&& answer.effect matches PointerEffect::Send(bytes) ==> {
                &&& bytes == mouse_report(
                    cell->0,
                    if forwarded.left_pressed {
                        32
                    } else if forwarded.middle_pressed {
                        33
                    } else if forwarded.right_pressed {
                        34
                    } else {
                        35
                    },
                    false,
                    frame.mouse_encoding,
                )
                &&& answer.forwarded == (ForwardedMouseState { last_cell: cell, ..forwarded })
                &&& answer.grip == grip
                &&& !answer.redraw
            }
            &&& !(answer.effect is Send) ==> answer.forwarded == forwarded
        }),
{
}

/// In space a motion turns the terminal, or else moves the camera, by the way from
/// the last position to this one, and the next motion starts here. The selection
/// is left alone.
pub proof fn motions_turn_the_plane<P>(
    frame: MouseFrame,
    selection: TerminalSelection<P>,
    grip: PlaneGrip<P>,
    forwarded: ForwardedMouseState,
    position: P,
    cell: Option<UVec2>,
    moved_far: bool,
)
    requires
        frame.presentation != TerminalPresentationMode::Flat2d,
    ensures
        ({
            let answer = motion_answer(
                frame,
                selection,
                grip,
                forwarded,
                position,
                cell,
                moved_far,
            );
            let waits = frame.presentation == TerminalPresentationMode::Mobius3d
                && frame.transition_active;
            &&& answer.effect == (if waits {
                PointerEffect::Nothing
            } else if grip.rotating && grip.last_rotate_cursor is Some {
                PointerEffect::Rotate(grip.last_rotate_cursor->0)
            } else if !grip.rotating && grip.panning && grip.last_pan_cursor is Some {
                PointerEffect::Pan(grip.last_pan_cursor->0)
            } else {
                PointerEffect::Nothing
            })
            &&& answer.redraw <==> !(answer.effect is Nothing)
            &&& answer.grip.last_rotate_cursor == (if !waits && grip.rotating {
                Some(position)
            } else {
                grip.last_rotate_cursor
            })
            &&& answer.grip.last_pan_cursor == (if !waits && !grip.rotating && grip.panning {
                Some(position)
            } else {
                grip.last_pan_cursor
            })
            &&& answer.grip.rotating == grip.rotating && answer.grip.panning == grip.panning
            &&& answer.selection == (TerminalSelection {
                cursor_position: Some(position),
                ..selection
            })
        }),
{
}

/// On a flat terminal without mouse reports, a motion drags the selection along.
pub proof fn motions_drag_the_selection<P>(
    frame: MouseFrame,
    selection: TerminalSelection<P>,
    grip: PlaneGrip<P>,
    forwarded: ForwardedMouseState,
    position: P,
    cell: Option<UVec2>,
    moved_far: bool,
)
    requires
        frame.presentation == TerminalPresentationMode::Flat2d,
        frame.mouse_mode == MouseProtocolMode::Off,
        selection.wf(),
    ensures
        ({
            let answer = motion_answer(
                frame,
                selection,
                grip,
                forwarded,
                position,
                cell,
                moved_far,
            );
            let after = answer.selection;
            &&& answer.grip == grip
            &&& answer.effect is Nothing
            &&& if selection.dragging && cell is Some {
                after.start == selection.start && after.end == cell && after.dragging
            } else if selection.pending_start is Some && moved_far && cell is Some {
                &&& after.start == selection.pending_start && after.end == cell && after.dragging
                &&& after.pending_start is None && after.pending_position is None
            } else {
                after == (TerminalSelection { cursor_position: Some(position), ..selection })
            }
            &&& answer.redraw <==> after.bounds() != selection.bounds() || after.start
                != selection.start || after.end != selection.end
        }),
{
}

/// Where the wheel goes: to the program where it asked for reports, else through
/// the history of a flat terminal, but not on the alternate screen; in space to
/// the camera, unless the strip is in transition.
pub proof fn the_wheel_goes_one_way(frame: MouseFrame, alternate_screen: bool, delta: WheelDelta)
    ensures
        ({
            let route = wheel_goes(frame, alternate_screen, delta);
            let flat = frame.presentation == TerminalPresentationMode::Flat2d;
            let asked = frame.mouse_mode != MouseProtocolMode::Off;
            let waits = frame.presentation == TerminalPresentationMode::Mobius3d
                && frame.transition_active;
            &&& route is Report <==> flat && asked && delta.nonzero
            &&& route matches WheelRoute::Report { up } ==> up == delta.positive
            &&& route is Scroll <==> flat && !(asked && delta.nonzero) && !alternate_screen
            &&& route is Zoom <==> !flat && !waits && delta.nonzero
        }),
{
}

/// Turning the wheel up goes back in the history by the configured lines, turning
/// it down comes forward by as many, and not beyond the end.
pub proof fn the_wheel_scrolls_both_ways(current: int, lines: int, up: WheelDelta, down: WheelDelta)
    requires
        0 <= current,
        0 <= lines,
        up.positive && !up.negative,
        down.negative && !down.positive,
    ensures
        scrolled(current, lines_turned(lines, up)) == current + lines,
        lines <= current ==> scrolled(current, lines_turned(lines, down)) == current - lines,
        lines > current ==> scrolled(current, lines_turned(lines, down)) == 0,
{
}

/// A command means what it says: bytes are sent as they are, and motions start from
/// the position that they name.
pub proof fn commands_mean_what_they_say<P>(bytes: Vec<u8>, from: P)
    ensures
        PointerCommand::<P>::Nothing.effect() is Nothing,
        PointerCommand::<P>::Send(bytes).effect() == PointerEffect::<P>::Send(bytes@),
        PointerCommand::Rotate(from).effect() == PointerEffect::Rotate(from),
        PointerCommand::Pan(from).effect() == PointerEffect::Pan(from),
        sends(PointerCommand::<P>::Send(bytes), bytes@),
{
}

/// The button byte of a report has the low eight bits of the button with its offset,
/// which is not counted beyond sixteen bits.
pub proof fn large_buttons_keep_their_low_bits(
    cell: UVec2,
    button_code: u16,
    encoding: MouseProtocolEncoding,
)
    requires
        encoding != MouseProtocolEncoding::Sgr,
    ensures
        ({
            let byte = mouse_report(cell, button_code, false, encoding)[3];
            &&& button_code <= 65503 ==> byte == (button_code + 32) % 256
            &&& button_code > 65503 ==> byte == 255
        }),
{
    lemma_low_byte((button_code + 32) as u16);
    lemma_low_byte(u16::MAX);
}

proof fn lemma_low_byte(n: u16)
    ensures
        n as u8 == n % 256,
{
    assert(n as u8 == n % 256) by (bit_vector);
}

} // verus!
