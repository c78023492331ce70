use ratty::screen::{
    scroll_to, visible_lines, Color, MouseProtocolEncoding, MouseProtocolMode, ScreenGrid,
    ScreenModes,
};

fn screen(bytes: &[u8]) -> vt100::Parser {
    let mut parser = vt100::Parser::new(3, 8, 10);
    parser.process(bytes);
    parser
}

#[test]
fn modes_are_read_from_the_screen() {
    let plain = ScreenModes::of(screen(b"").screen());
    assert!(!plain.alternate_screen && !plain.bracketed_paste);
    assert!(!plain.application_cursor && !plain.hide_cursor);
    assert_eq!(plain.mouse_mode, MouseProtocolMode::Off);
    assert_eq!(plain.mouse_encoding, MouseProtocolEncoding::Default);
    let modes = ScreenModes::of(
        screen(b"\x1b[?1049h\x1b[?2004h\x1b[?1h\x1b[?25l\x1b[?1003h\x1b[?1006h\x1b[2;5H").screen(),
    );
    assert!(modes.alternate_screen && modes.bracketed_paste);
    assert!(modes.application_cursor && modes.hide_cursor);
    assert_eq!(modes.mouse_mode, MouseProtocolMode::AnyMotion);
    assert_eq!(modes.mouse_encoding, MouseProtocolEncoding::Sgr);
    assert_eq!((modes.cursor_row, modes.cursor_col), (1, 4));
    assert_eq!(modes.scrollback, 0);
}

#[test]
fn mouse_modes_are_told_apart() {
    let mode = |bytes: &[u8]| ScreenModes::of(screen(bytes).screen()).mouse_mode;
    assert_eq!(mode(b"\x1b[?9h"), MouseProtocolMode::Press);
    assert_eq!(mode(b"\x1b[?1000h"), MouseProtocolMode::PressRelease);
    assert_eq!(mode(b"\x1b[?1002h"), MouseProtocolMode::ButtonMotion);
    let utf8 = ScreenModes::of(screen(b"\x1b[?1005h").screen());
    assert_eq!(utf8.mouse_encoding, MouseProtocolEncoding::Utf8);
}

#[test]
fn history_is_scrolled_as_far_as_it_goes() {
    let mut parser = screen(b"1\r\n2\r\n3\r\n4\r\n5");
    scroll_to(parser.screen_mut(), 1);
    assert_eq!(ScreenModes::of(parser.screen()).scrollback, 1);
    assert_eq!(visible_lines(parser.screen()).unwrap(), vec!["2", "3", "4"]);
    scroll_to(parser.screen_mut(), 99);
    assert_eq!(ScreenModes::of(parser.screen()).scrollback, 2);
    assert_eq!(visible_lines(parser.screen()).unwrap(), vec!["1", "2", "3"]);
    scroll_to(parser.screen_mut(), 0);
    assert_eq!(visible_lines(parser.screen()).unwrap(), vec!["3", "4", "5"]);
}

#[test]
fn scrolling_keeps_the_size() {
    let mut parser = screen(b"1\r\n2\r\n3\r\n4\r\n5");
    let size = parser.screen().size();
    scroll_to(parser.screen_mut(), 2);
    assert_eq!(parser.screen().size(), size);
}

#[test]
fn the_widest_screens_are_read() {
    let mut parser = vt100::Parser::new(2, 65535, 0);
    parser.process(b"ab\r\n\x1b[65535Gz");
    let rows = visible_lines(parser.screen()).unwrap();
    assert_eq!(rows[0], "ab");
    assert_eq!(rows[1].len(), 65535);
    assert!(rows[1].ends_with(" z"));
    let mut narrower = vt100::Parser::new(1, 65534, 0);
    narrower.process("世".as_bytes());
    assert_eq!(visible_lines(narrower.screen()).unwrap(), vec!["世"]);
}

#[test]
fn grids_hold_the_cells_of_the_screen() {
    let parser = screen("\x1b[38;2;1;2;3mA\x1b[31m世\x1b[0mz".as_bytes());
    let grid = ScreenGrid::read(parser.screen());
    assert_eq!(grid.cols, 8);
    assert_eq!(grid.lines.len(), 3);
    let cell = grid.cell(0, 0).unwrap();
    assert_eq!(cell.contents, "A");
    assert!(cell.has_contents && !cell.wide && !cell.wide_continuation);
    assert_eq!(cell.foreground, Color::Rgb(1, 2, 3));
    assert_eq!(grid.cell(0, 1).unwrap().contents, "世");
    assert_eq!(grid.cell(0, 1).unwrap().foreground, Color::Idx(1));
    assert!(grid.cell(0, 1).unwrap().wide && !grid.cell(0, 1).unwrap().wide_continuation);
    assert!(grid.cell(0, 2).unwrap().wide_continuation && !grid.cell(0, 2).unwrap().wide);
    assert_eq!(grid.cell(0, 3).unwrap().foreground, Color::Default);
    assert!(!grid.cell(1, 0).unwrap().has_contents);
    assert!(grid.cell(0, 8).is_none());
    assert!(grid.cell(3, 0).is_none());
}
