use ratty::mouse::{
    button_changed, cursor_moved, encode_mouse_event, encode_mouse_wheel, line_scroll_amount,
    scroll_history, wheel_route, ForwardedMouseState, MouseButton, MouseFrame, PlaneGrip,
    PointerCommand, PointerOutcome, WheelDelta, WheelRoute,
};
use ratty::presentation::TerminalPresentationMode;
use ratty::screen::{MouseProtocolEncoding, MouseProtocolMode};
use ratty::selection::{TerminalSelection, UVec2};

const UP: WheelDelta = WheelDelta { nonzero: true, positive: true, negative: false };
const DOWN: WheelDelta = WheelDelta { nonzero: true, positive: false, negative: true };
const STILL: WheelDelta = WheelDelta { nonzero: false, positive: false, negative: false };

struct World {
    frame: MouseFrame,
    selection: TerminalSelection<(i32, i32)>,
    grip: PlaneGrip<(i32, i32)>,
    forwarded: ForwardedMouseState,
}

fn world(presentation: TerminalPresentationMode, mouse_mode: MouseProtocolMode) -> World {
    World {
        frame: MouseFrame {
            presentation,
            transition_active: false,
            mouse_mode,
            mouse_encoding: MouseProtocolEncoding::Sgr,
        },
        selection: TerminalSelection::default(),
        grip: PlaneGrip {
            rotating: false,
            panning: false,
            last_rotate_cursor: None,
            last_pan_cursor: None,
        },
        forwarded: ForwardedMouseState::default(),
    }
}

impl World {
    fn move_to(&mut self, x: i32, y: i32, far: bool) -> PointerOutcome<(i32, i32)> {
        cursor_moved(
            &self.frame,
            &mut self.selection,
            &mut self.grip,
            &mut self.forwarded,
            (x, y),
            Some(UVec2::new(x as u32, y as u32)),
            far,
        )
    }

    fn click(&mut self, button: MouseButton, pressed: bool) -> PointerOutcome<(i32, i32)> {
        let cell = self.selection.cursor_position().map(|(x, y)| UVec2::new(x as u32, y as u32));
        button_changed(
            &self.frame,
            &mut self.selection,
            &mut self.grip,
            &mut self.forwarded,
            button,
            pressed,
            cell,
            cell,
        )
    }
}

fn sent(outcome: PointerOutcome<(i32, i32)>) -> Option<Vec<u8>> {
    match outcome.command {
        PointerCommand::Send(bytes) => Some(bytes),
        _ => None,
    }
}

#[test]
fn sgr_reports_hold_decimal_numbers() {
    let cell = UVec2::new(9, 299);
    assert_eq!(
        encode_mouse_event(cell, 0, false, MouseProtocolEncoding::Sgr),
        b"\x1b[<0;10;300M"
    );
    assert_eq!(
        encode_mouse_event(cell, 2, true, MouseProtocolEncoding::Sgr),
        b"\x1b[<2;10;300m"
    );
}

#[test]
fn default_reports_hold_bytes() {
    let cell = UVec2::new(0, 500);
    assert_eq!(
        encode_mouse_event(cell, 1, false, MouseProtocolEncoding::Default),
        vec![0x1b, b'[', b'M', 33, 33, 255]
    );
    assert_eq!(
        encode_mouse_event(cell, 1, true, MouseProtocolEncoding::Utf8),
        vec![0x1b, b'[', b'M', 35, 33, 255]
    );
    assert_eq!(
        encode_mouse_event(cell, 65535, false, MouseProtocolEncoding::Default),
        vec![0x1b, b'[', b'M', 255, 33, 255]
    );
}

#[test]
fn wheel_reports_use_their_own_buttons() {
    let cell = UVec2::new(1, 2);
    assert_eq!(
        encode_mouse_wheel(cell, true, MouseProtocolEncoding::Sgr),
        b"\x1b[<64;2;3M"
    );
    assert_eq!(
        encode_mouse_wheel(cell, false, MouseProtocolEncoding::Default),
        vec![0x1b, b'[', b'M', 97, 34, 35]
    );
}

#[test]
fn motion_is_reported_once_per_cell() {
    let mut world = world(TerminalPresentationMode::Flat2d, MouseProtocolMode::AnyMotion);
    assert_eq!(sent(world.move_to(3, 4, false)), Some(b"\x1b[<35;4;5M".to_vec()));
    assert_eq!(sent(world.move_to(3, 4, false)), None);
    assert_eq!(sent(world.move_to(4, 4, false)), Some(b"\x1b[<35;5;5M".to_vec()));
    assert_eq!(world.selection.cursor_position(), Some((4, 4)));
}

#[test]
fn button_motion_needs_a_held_button() {
    let mut world = world(TerminalPresentationMode::Flat2d, MouseProtocolMode::ButtonMotion);
    assert_eq!(sent(world.move_to(1, 1, false)), None);
    assert_eq!(
        sent(world.click(MouseButton::Right, true)),
        Some(b"\x1b[<2;2;2M".to_vec())
    );
    assert_eq!(sent(world.move_to(2, 1, false)), Some(b"\x1b[<34;3;2M".to_vec()));
    assert_eq!(
        sent(world.click(MouseButton::Right, false)),
        Some(b"\x1b[<2;3;2m".to_vec())
    );
    assert_eq!(sent(world.move_to(3, 1, false)), None);
    assert_eq!(sent(world.click(MouseButton::Other, true)), None);
}

#[test]
fn held_buttons_are_reported_in_order() {
    let mut world = world(TerminalPresentationMode::Flat2d, MouseProtocolMode::AnyMotion);
    world.move_to(0, 0, false);
    world.click(MouseButton::Middle, true);
    assert_eq!(sent(world.move_to(1, 0, false)), Some(b"\x1b[<33;2;1M".to_vec()));
    world.click(MouseButton::Left, true);
    assert_eq!(sent(world.move_to(2, 0, false)), Some(b"\x1b[<32;3;1M".to_vec()));
}

#[test]
fn flat_terminals_select_text() {
    let mut world = world(TerminalPresentationMode::Flat2d, MouseProtocolMode::Off);
    world.move_to(2, 3, false);
    assert!(!world.click(MouseButton::Left, true).redraw);
    assert_eq!(world.selection.pending_start, Some(UVec2::new(2, 3)));
    assert!(!world.move_to(3, 3, false).redraw);
    assert!(world.move_to(6, 3, true).redraw);
    assert!(world.selection.dragging);
    world.click(MouseButton::Left, false);
    assert!(!world.selection.dragging);
    let bounds = world.selection.normalized_bounds().unwrap();
    assert_eq!((bounds.start_col, bounds.end_col), (2, 6));
    assert!(world.click(MouseButton::Left, true).redraw);
    assert!(world.selection.normalized_bounds().is_none());
    world.click(MouseButton::Right, true);
    assert!(!world.grip.panning);
}

#[test]
fn terminals_in_space_are_gripped() {
    let mut world = world(TerminalPresentationMode::Plane3d, MouseProtocolMode::AnyMotion);
    world.move_to(1, 1, false);
    world.click(MouseButton::Left, true);
    assert!(world.grip.rotating);
    let outcome = world.move_to(5, 6, false);
    assert!(outcome.redraw);
    assert!(matches!(outcome.command, PointerCommand::Rotate((1, 1))));
    world.click(MouseButton::Left, false);
    assert!(!world.grip.rotating);
    world.click(MouseButton::Right, true);
    assert!(world.grip.panning);
    let outcome = world.move_to(7, 7, false);
    assert!(matches!(outcome.command, PointerCommand::Pan((5, 6))));
    assert_eq!(world.grip.last_pan_cursor, Some((7, 7)));
    world.click(MouseButton::Middle, true);
    assert_eq!(world.forwarded, ForwardedMouseState::default());
}

#[test]
fn animating_strips_ignore_the_mouse() {
    let mut world = world(TerminalPresentationMode::Mobius3d, MouseProtocolMode::Off);
    world.frame.transition_active = true;
    assert!(world.frame.mobius_animating());
    assert!(!world.frame.forward_mouse());
    world.move_to(1, 1, false);
    world.click(MouseButton::Left, true);
    assert!(!world.grip.rotating);
    assert_eq!(world.selection.cursor_position(), Some((1, 1)));
    assert_eq!(wheel_route(&world.frame, false, UP), WheelRoute::Ignore);
}

#[test]
fn wheels_are_routed_by_mode() {
    let flat = world(TerminalPresentationMode::Flat2d, MouseProtocolMode::Off).frame;
    assert_eq!(wheel_route(&flat, false, UP), WheelRoute::Scroll);
    assert_eq!(wheel_route(&flat, true, UP), WheelRoute::Ignore);
    let reporting = world(TerminalPresentationMode::Flat2d, MouseProtocolMode::Press).frame;
    assert_eq!(wheel_route(&reporting, true, UP), WheelRoute::Report { up: true });
    assert_eq!(wheel_route(&reporting, false, DOWN), WheelRoute::Report { up: false });
    assert_eq!(wheel_route(&reporting, false, STILL), WheelRoute::Scroll);
    let space = world(TerminalPresentationMode::Plane3d, MouseProtocolMode::Press).frame;
    assert_eq!(wheel_route(&space, false, DOWN), WheelRoute::Zoom);
    assert_eq!(wheel_route(&space, false, STILL), WheelRoute::Ignore);
}

#[test]
fn wheel_lines_scroll_the_history() {
    assert_eq!(line_scroll_amount(3, UP), 3);
    assert_eq!(line_scroll_amount(3, DOWN), -3);
    assert_eq!(line_scroll_amount(3, STILL), 3);
    let mut selection: TerminalSelection<u8> = TerminalSelection::default();
    selection.begin(UVec2::new(0, 0));
    assert_eq!(scroll_history(&mut selection, 5, 0), None);
    assert!(selection.normalized_bounds().is_some());
    assert_eq!(scroll_history(&mut selection, 5, 3), Some(8));
    assert!(selection.normalized_bounds().is_none());
    assert_eq!(scroll_history(&mut selection, 8, -3), Some(5));
    assert_eq!(scroll_history(&mut selection, 2, -3), Some(0));
}

#[test]
fn cells_that_are_not_reported_need_no_room() {
    let mut flat = world(TerminalPresentationMode::Flat2d, MouseProtocolMode::Off);
    assert!(sent(flat.move_to(-1, -1, false)).is_none());
    assert!(sent(flat.click(MouseButton::Left, true)).is_none());
    assert_eq!(flat.selection.pending_start, Some(UVec2::new(u32::MAX, u32::MAX)));
    let mut still = world(TerminalPresentationMode::Flat2d, MouseProtocolMode::Press);
    assert!(sent(still.move_to(-1, -1, false)).is_none());
}
