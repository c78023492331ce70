use ratty::screen::{Cell, Color, ScreenGrid};
use ratty::selection::{SelectionBounds, TerminalSelection, UVec2};

fn at(x: u32, y: u32) -> UVec2 {
    UVec2::new(x, y)
}

fn select(start: UVec2, end: UVec2) -> TerminalSelection<u8> {
    let mut selection = TerminalSelection::default();
    selection.begin(start);
    selection.update(end);
    selection
}

fn cell(contents: &str, wide_continuation: bool) -> Option<Cell> {
    Some(Cell {
        contents: contents.to_owned(),
        has_contents: !contents.is_empty(),
        wide: false,
        wide_continuation,
        foreground: Color::Default,
    })
}

#[test]
fn bounds_are_normalized() {
    let selection = select(at(5, 3), at(2, 1));
    assert_eq!(
        selection.normalized_bounds(),
        Some(SelectionBounds { start_row: 1, end_row: 3, start_col: 2, end_col: 5 })
    );
    assert_eq!(
        select(at(2, 1), at(5, 3)).normalized_bounds(),
        selection.normalized_bounds()
    );
    assert_eq!(TerminalSelection::<u8>::default().normalized_bounds(), None);
}

#[test]
fn single_row_bounds_contain_their_columns() {
    let bounds = SelectionBounds { start_row: 2, end_row: 2, start_col: 3, end_col: 5 };
    assert!(bounds.contains(2, 3));
    assert!(bounds.contains(2, 5));
    assert!(!bounds.contains(2, 2));
    assert!(!bounds.contains(2, 6));
    assert!(!bounds.contains(1, 4));
    assert!(!bounds.contains(3, 4));
}

#[test]
fn multiple_row_bounds_contain_whole_rows_between() {
    let bounds = SelectionBounds { start_row: 1, end_row: 3, start_col: 4, end_col: 6 };
    assert!(bounds.contains(1, 4));
    assert!(bounds.contains(1, 90));
    assert!(!bounds.contains(1, 3));
    assert!(bounds.contains(2, 0));
    assert!(bounds.contains(2, 90));
    assert!(bounds.contains(3, 0));
    assert!(bounds.contains(3, 6));
    assert!(!bounds.contains(3, 7));
}

#[test]
fn selections_report_changes() {
    let mut selection: TerminalSelection<u8> = TerminalSelection::default();
    assert!(!selection.clear());
    assert!(selection.begin(at(1, 1)));
    assert!(!selection.begin(at(1, 1)));
    assert!(selection.update(at(2, 1)));
    assert!(!selection.update(at(2, 1)));
    assert!(selection.end());
    assert!(!selection.end());
    assert!(!selection.update(at(3, 1)));
    assert!(selection.begin_pending(at(4, 4), 7));
    assert_eq!(selection.normalized_bounds(), None);
    assert!(!selection.begin_pending(at(4, 4), 7));
    assert!(selection.clear());
    assert!(!selection.clear());
}

#[test]
fn pending_presses_become_selections_when_dragged_far() {
    let mut selection: TerminalSelection<u8> = TerminalSelection::default();
    assert!(!selection.update_from_cursor(at(1, 1), true));
    selection.begin_pending(at(1, 1), 9);
    assert!(!selection.update_from_cursor(at(2, 1), false));
    assert_eq!(selection.normalized_bounds(), None);
    assert!(selection.update_from_cursor(at(3, 1), true));
    assert!(selection.dragging);
    assert_eq!(
        selection.normalized_bounds(),
        Some(SelectionBounds { start_row: 1, end_row: 1, start_col: 1, end_col: 3 })
    );
    assert!(!selection.update_from_cursor(at(3, 1), false));
    assert!(selection.update_from_cursor(at(4, 1), false));
}

#[test]
fn clicks_leave_no_selection() {
    let mut selection: TerminalSelection<u8> = TerminalSelection::default();
    selection.begin_pending(at(1, 1), 9);
    selection.update_from_cursor(at(2, 2), false);
    assert!(!selection.end());
    assert_eq!(selection.normalized_bounds(), None);
    assert_eq!(selection.pending_start, None);
}

#[test]
fn pointer_positions_are_kept_until_cleared() {
    let mut selection: TerminalSelection<u8> = TerminalSelection::default();
    assert_eq!(selection.cursor_position(), None);
    selection.set_cursor_position(5);
    selection.begin(at(0, 0));
    assert_eq!(selection.cursor_position(), Some(5));
    selection.clear();
    assert_eq!(selection.cursor_position(), None);
}

#[test]
fn selected_text_of_a_screen_joins_rows() {
    let mut parser = vt100::Parser::new(4, 10, 0);
    parser.process(b"first row\r\n  two   \r\nlast");
    let screen = parser.screen();
    assert_eq!(
        select(at(0, 0), at(9, 2)).selected_text(screen).unwrap(),
        "first row\n  two\nlast      "
    );
    assert_eq!(select(at(2, 0), at(4, 0)).selected_text(screen).unwrap(), "rst");
    assert_eq!(
        select(at(1, 0), at(2, 1)).selected_text(screen).unwrap(),
        "irst row\n  t"
    );
    assert_eq!(select(at(0, 3), at(3, 3)).selected_text(screen).unwrap(), "    ");
    assert_eq!(TerminalSelection::<u8>::default().selected_text(screen), None);
}

#[test]
fn selected_text_reaches_past_the_screen() {
    let mut parser = vt100::Parser::new(2, 4, 0);
    parser.process(b"ab");
    let screen = parser.screen();
    assert_eq!(select(at(0, 0), at(50, 0)).selected_text(screen).unwrap(), "ab  ");
    assert_eq!(select(at(0, 0), at(50, 3)).selected_text(screen).unwrap(), "ab\n\n\n");
}

#[test]
fn wide_characters_are_selected_once() {
    let mut parser = vt100::Parser::new(2, 10, 0);
    parser.process("世界x".as_bytes());
    assert_eq!(
        select(at(0, 0), at(4, 0)).selected_text(parser.screen()).unwrap(),
        "世界x"
    );
}

#[test]
fn scrolled_screens_are_selected_as_shown() {
    let mut parser = vt100::Parser::new(2, 10, 10);
    parser.process(b"one\r\ntwo\r\nthree");
    ratty::screen::scroll_to(parser.screen_mut(), 1);
    assert_eq!(
        select(at(0, 0), at(9, 1)).selected_text(parser.screen()).unwrap(),
        "one\ntwo       "
    );
}

#[test]
fn plain_grids_are_selected_like_screens() {
    let grid = ScreenGrid {
        cols: 3,
        lines: vec![
            vec![cell("a", false), cell("", false), cell("", false)],
            vec![cell("宽", false), cell("", true), None],
        ],
    };
    assert_eq!(
        select(at(0, 0), at(2, 1)).selected_text_of(&grid).unwrap(),
        "a\n宽"
    );
    assert_eq!(select(at(1, 0), at(2, 0)).selected_text_of(&grid).unwrap(), "  ");
}
