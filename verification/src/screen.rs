//! Reading the terminal screen kept by the `vt100` parser.

use vstd::prelude::*;
use vstd::string::*;

verus! {

/// The `vt100` screen: a grid of cells together with the terminal modes.
#[verifier::external_type_specification]
#[verifier::external_body]
pub struct ExScreen(vt100::Screen);

/// The colors of a cell.
#[derive(Clone, Copy, PartialEq, Eq, Structural, Debug)]
pub enum Color {
    /// The default terminal color.
    Default,
    /// An indexed terminal color.
    Idx(u8),
    /// Red, green and blue components.
    Rgb(u8, u8, u8),
}

/// One cell of the screen.
pub struct Cell {
    /// Text of the cell.
    pub contents: String,
    /// Whether the cell holds any text.
    pub has_contents: bool,
    /// Whether the cell holds a wide character.
    pub wide: bool,
    /// Whether the cell is the second half of a wide character.
    pub wide_continuation: bool,
    /// Foreground color.
    pub foreground: Color,
}

/// What a cell holds: its text, whether it has any, whether it holds a wide
/// character, whether it is the second half of one, and its foreground color.
pub type CellContents = (Seq<char>, bool, bool, bool, Color);

impl View for Cell {
    type V = CellContents;

    open spec fn view(&self) -> CellContents {
        (
            self.contents@,
            self.has_contents,
            self.wide,
            self.wide_continuation,
            self.foreground,
        )
    }
}

/// The visible cells of a screen by row and column.
pub uninterp spec fn screen_cells(screen: vt100::Screen) -> Map<(u16, u16), CellContents>;

/// The rows and columns of a screen.
pub uninterp spec fn screen_size(screen: vt100::Screen) -> (u16, u16);

/// `vt100::Screen::size` returns the rows and columns of the screen. No cell is
/// visible below the last row.
pub assume_specification[ vt100::Screen::size ](screen: &vt100::Screen) -> (size: (u16, u16))
    ensures
        size == screen_size(*screen),
        forall|row: u16, col: u16| #[trigger]
            screen_cells(*screen).dom().contains((row, col)) ==> row < size.0,
;

/// `vt100::Screen::cell` returns the visible cell at a row and column, or
/// nothing where the screen has none.
#[verifier::external_body]
pub(crate) fn read_cell(screen: &vt100::Screen, row: u16, col: u16) -> (cell: Option<Cell>)
    ensures
        cell is Some <==> screen_cells(*screen).dom().contains((row, col)),
        cell is Some ==> cell->0@ == screen_cells(*screen)[(row, col)],
{
    screen.cell(row, col).map(|cell| Cell {
        contents: cell.contents().to_owned(),
        has_contents: cell.has_contents(),
        wide: cell.is_wide(),
        wide_continuation: cell.is_wide_continuation(),
        foreground: match cell.fgcolor() {
            vt100::Color::Default => Color::Default,
            vt100::Color::Idx(index) => Color::Idx(index),
            vt100::Color::Rgb(r, g, b) => Color::Rgb(r, g, b),
        },
    })
}

/// Mouse reporting requested by the foreground program.
#[derive(Clone, Copy, PartialEq, Eq, Structural, Debug)]
pub enum MouseProtocolMode {
    /// Nothing is reported.
    Off,
    /// Presses are reported.
    Press,
    /// Presses and releases are reported.
    PressRelease,
    /// Presses, releases and motion with a held button are reported.
    ButtonMotion,
    /// Presses, releases and all motion are reported.
    AnyMotion,
}

/// How mouse reports are written.
#[derive(Clone, Copy, PartialEq, Eq, Structural, Debug)]
pub enum MouseProtocolEncoding {
    /// One byte per number.
    Default,
    /// One UTF-8 character per number.
    Utf8,
    /// Decimal numbers.
    Sgr,
}

/// Whether a screen shows the alternate buffer.
pub uninterp spec fn screen_alternate(screen: vt100::Screen) -> bool;

/// Whether a screen asks for pastes in brackets.
pub uninterp spec fn screen_bracketed_paste(screen: vt100::Screen) -> bool;

/// Whether a screen asks for application cursor keys.
pub uninterp spec fn screen_application_cursor(screen: vt100::Screen) -> bool;

/// Whether a screen hides the cursor.
pub uninterp spec fn screen_hide_cursor(screen: vt100::Screen) -> bool;

/// The mouse reporting that a screen asks for.
pub uninterp spec fn screen_mouse_mode(screen: vt100::Screen) -> MouseProtocolMode;

/// The mouse encoding that a screen asks for.
pub uninterp spec fn screen_mouse_encoding(screen: vt100::Screen) -> MouseProtocolEncoding;

/// Row and column of the cursor of a screen.
pub uninterp spec fn screen_cursor(screen: vt100::Screen) -> (u16, u16);

/// How many lines a screen is scrolled back.
pub uninterp spec fn screen_scrollback(screen: vt100::Screen) -> usize;

/// How many lines of history a screen keeps above its first line.
pub uninterp spec fn screen_history(screen: vt100::Screen) -> usize;

/// `vt100::Screen::alternate_screen` tells whether the alternate buffer is
/// shown.
pub assume_specification[ vt100::Screen::alternate_screen ](screen: &vt100::Screen) -> (shown: bool)
    ensures
        shown == screen_alternate(*screen),
;

/// `vt100::Screen::bracketed_paste` tells whether pastes go in brackets.
pub assume_specification[ vt100::Screen::bracketed_paste ](screen: &vt100::Screen) -> (on: bool)
    ensures
        on == screen_bracketed_paste(*screen),
;

/// `vt100::Screen::application_cursor` tells whether application cursor keys
/// are on.
pub assume_specification[ vt100::Screen::application_cursor ](screen: &vt100::Screen) -> (on: bool)
    ensures
        on == screen_application_cursor(*screen),
;

/// `vt100::Screen::hide_cursor` tells whether the cursor is hidden.
pub assume_specification[ vt100::Screen::hide_cursor ](screen: &vt100::Screen) -> (hidden: bool)
    ensures
        hidden == screen_hide_cursor(*screen),
;

/// `vt100::Screen::cursor_position` returns the row and column of the cursor.
pub assume_specification[ vt100::Screen::cursor_position ](screen: &vt100::Screen) -> (at: (
    u16,
    u16,
))
    ensures
        at == screen_cursor(*screen),
;

/// `vt100::Screen::scrollback` returns how many lines the screen is scrolled
/// back.
pub assume_specification[ vt100::Screen::scrollback ](screen: &vt100::Screen) -> (offset: usize)
    ensures
        offset == screen_scrollback(*screen),
;

/// `vt100::Screen::set_scrollback` scrolls back by a number of lines, or by all
/// the lines of history where there are fewer. It leaves the history, the size,
/// the cursor and the modes as they are. Which cells are visible afterwards is not
/// stated.
pub assume_specification[ vt100::Screen::set_scrollback ](screen: &mut vt100::Screen, rows: usize)
    ensures
        screen_scrollback(*final(screen)) == (if rows <= screen_history(*old(screen)) {
            rows
        } else {
            screen_history(*old(screen))
        }),
        screen_history(*final(screen)) == screen_history(*old(screen)),
        screen_size(*final(screen)) == screen_size(*old(screen)),
        modes_of(*final(screen)) == (ScreenModes {
            scrollback: screen_scrollback(*final(screen)),
            ..modes_of(*old(screen))
        }),
;

/// `vt100::Screen::mouse_protocol_mode` returns the requested mouse reporting.
#[verifier::external_body]
fn read_mouse_mode(screen: &vt100::Screen) -> (mode: MouseProtocolMode)
    ensures
        mode == screen_mouse_mode(*screen),
{
    match screen.mouse_protocol_mode() {
        vt100::MouseProtocolMode::None => MouseProtocolMode::Off,
        vt100::MouseProtocolMode::Press => MouseProtocolMode::Press,
        vt100::MouseProtocolMode::PressRelease => MouseProtocolMode::PressRelease,
        vt100::MouseProtocolMode::ButtonMotion => MouseProtocolMode::ButtonMotion,
        vt100::MouseProtocolMode::AnyMotion => MouseProtocolMode::AnyMotion,
    }
}

/// `vt100::Screen::mouse_protocol_encoding` returns the requested encoding of
/// mouse reports.
#[verifier::external_body]
fn read_mouse_encoding(screen: &vt100::Screen) -> (encoding: MouseProtocolEncoding)
    ensures
        encoding == screen_mouse_encoding(*screen),
{
    match screen.mouse_protocol_encoding() {
        vt100::MouseProtocolEncoding::Default => MouseProtocolEncoding::Default,
        vt100::MouseProtocolEncoding::Utf8 => MouseProtocolEncoding::Utf8,
        vt100::MouseProtocolEncoding::Sgr => MouseProtocolEncoding::Sgr,
    }
}

/// The state of a screen that input handling depends on.
#[derive(Clone, Copy, PartialEq, Eq, Structural, Debug)]
pub struct ScreenModes {
    /// Whether the alternate buffer is shown.
    pub alternate_screen: bool,
    /// Whether pastes go in brackets.
    pub bracketed_paste: bool,
    /// Whether application cursor keys are on.
    pub application_cursor: bool,
    /// Whether the cursor is hidden.
    pub hide_cursor: bool,
    /// Requested mouse reporting.
    pub mouse_mode: MouseProtocolMode,
    /// Requested encoding of mouse reports.
    pub mouse_encoding: MouseProtocolEncoding,
    /// Row of the cursor.
    pub cursor_row: u16,
    /// Column of the cursor.
    pub cursor_col: u16,
    /// How many lines the screen is scrolled back.
    pub scrollback: usize,
}

/// The modes of a screen.
pub open spec fn modes_of(screen: vt100::Screen) -> ScreenModes {
    ScreenModes {
        alternate_screen: screen_alternate(screen),
        bracketed_paste: screen_bracketed_paste(screen),
        application_cursor: screen_application_cursor(screen),
        hide_cursor: screen_hide_cursor(screen),
        mouse_mode: screen_mouse_mode(screen),
        mouse_encoding: screen_mouse_encoding(screen),
        cursor_row: screen_cursor(screen).0,
        cursor_col: screen_cursor(screen).1,
        scrollback: screen_scrollback(screen),
    }
}

impl ScreenModes {
    /// Reads the modes of a screen.
    pub fn of(screen: &vt100::Screen) -> (modes: ScreenModes)
        ensures
            modes == modes_of(*screen),
    {
        let (row, col) = screen.cursor_position();
        ScreenModes {
            alternate_screen: screen.alternate_screen(),
            bracketed_paste: screen.bracketed_paste(),
            application_cursor: screen.application_cursor(),
            hide_cursor: screen.hide_cursor(),
            mouse_mode: read_mouse_mode(screen),
            mouse_encoding: read_mouse_encoding(screen),
            cursor_row: row,
            cursor_col: col,
            scrollback: screen.scrollback(),
        }
    }
}

/// How many lines a screen is scrolled back once it is scrolled to an offset.
pub open spec fn scrolled_to(history: usize, offset: usize) -> usize {
    if offset <= history {
        offset
    } else {
        history
    }
}

/// Scrolling goes to the offset as far as the history reaches, and never beyond.
pub proof fn scrolling_ends_at_the_history(history: usize, offset: usize)
    ensures
        scrolled_to(history, offset) <= offset,
        scrolled_to(history, offset) <= history,
        scrolled_to(history, offset) == offset || scrolled_to(history, offset) == history,
        scrolled_to(history, 0) == 0,
{
}

/// The modes of a screen are those that it tells, each under its own name, with the
/// row of the cursor before its column.
pub proof fn modes_are_those_of_the_screen(screen: vt100::Screen)
    ensures
        modes_of(screen).alternate_screen == screen_alternate(screen),
        modes_of(screen).bracketed_paste == screen_bracketed_paste(screen),
        modes_of(screen).application_cursor == screen_application_cursor(screen),
        modes_of(screen).hide_cursor == screen_hide_cursor(screen),
        modes_of(screen).mouse_mode == screen_mouse_mode(screen),
        modes_of(screen).mouse_encoding == screen_mouse_encoding(screen),
        (modes_of(screen).cursor_row, modes_of(screen).cursor_col) == screen_cursor(screen),
        modes_of(screen).scrollback == screen_scrollback(screen),
{
}

/// Scrolls a screen back by `offset` lines, or as far as its history goes.
pub fn scroll_to(screen: &mut vt100::Screen, offset: usize)
    ensures
        screen_scrollback(*final(screen)) == (if offset <= screen_history(*old(screen)) {
            offset
        } else {
            screen_history(*old(screen))
        }),
        screen_scrollback(*final(screen)) == scrolled_to(screen_history(*old(screen)), offset),
        screen_history(*final(screen)) == screen_history(*old(screen)),
        screen_size(*final(screen)) == screen_size(*old(screen)),
        modes_of(*final(screen)) == (ScreenModes {
            scrollback: screen_scrollback(*final(screen)),
            ..modes_of(*old(screen))
        }),
{
    screen.set_scrollback(offset);
}

/// The texts of a list of strings.
pub open spec fn texts(rows: Seq<String>) -> Seq<Seq<char>> {
    rows.map_values(|row: String| row@)
}

/// The text of each visible row of a screen, between a first column and a width.
pub uninterp spec fn screen_lines(screen: vt100::Screen, start: u16, width: u16) -> Seq<Seq<char>>;

/// Whether a wide character stands in the last column that can be counted in
/// sixteen bits.
pub open spec fn wide_at_last_column(screen: vt100::Screen) -> bool {
    exists|row: u16| #[trigger] wide_at(screen, row, 0xfffe)
}

/// Whether a wide character stands in a cell.
pub open spec fn wide_at(screen: vt100::Screen, row: u16, col: u16) -> bool {
    screen_cells(screen).dom().contains((row, col)) && screen_cells(screen)[(row, col)].2
}

/// `vt100::Screen::rows` yields the text of each visible row. The columns behind a
/// character are counted in sixteen bits, so that a wide character in the last
/// column that there can be leaves no room.
#[verifier::external_body]
fn read_lines(screen: &vt100::Screen, start: u16, width: u16) -> (rows: Vec<String>)
    requires
        start + width < u16::MAX || !wide_at_last_column(*screen),
    ensures
        texts(rows@) == screen_lines(*screen, start, width),
{
    screen.rows(start, width).collect()
}

/// The text of each visible row of a screen over all its columns. There is none
/// where a wide character in the last column cannot be counted.
pub open spec fn lines_shown(screen: vt100::Screen) -> Option<Seq<Seq<char>>> {
    if screen_size(screen).1 == u16::MAX && wide_at_last_column(screen) {
        None
    } else {
        Some(screen_lines(screen, 0, screen_size(screen).1))
    }
}

/// The rows of a screen are read from their first column over the width of the
/// screen. Only the widest screen, with a wide character in a last column, has none.
pub proof fn rows_are_read_over_the_width(screen: vt100::Screen, row: u16)
    ensures
        screen_size(screen).1 < u16::MAX ==> lines_shown(screen) == Some(
            screen_lines(screen, 0, screen_size(screen).1),
        ),
        lines_shown(screen) matches Some(lines) ==> lines == screen_lines(
            screen,
            0,
            screen_size(screen).1,
        ),
        screen_size(screen).1 == u16::MAX && screen_cells(screen).dom().contains((row, 0xfffe))
            && screen_cells(screen)[(row, 0xfffe)].2 ==> lines_shown(screen) is None,
{
    if screen_cells(screen).dom().contains((row, 0xfffe)) && screen_cells(screen)[(
        row,
        0xfffe,
    )].2 {
        assert(wide_at(screen, row, 0xfffe));
    }
}

/// Reads the text of each visible row of a screen. Nothing is returned where a
/// wide character in the last column cannot be counted.
pub fn visible_lines(screen: &vt100::Screen) -> (rows: Option<Vec<String>>)
    ensures
        match rows {
            Some(rows) => {
                &&& screen_size(*screen).1 < u16::MAX || !wide_at_last_column(*screen)
                &&& texts(rows@) == screen_lines(*screen, 0, screen_size(*screen).1)
            },
            None => screen_size(*screen).1 == u16::MAX && wide_at_last_column(*screen),
        },
        rows is Some <==> lines_shown(*screen) is Some,
        rows is Some ==> Some(texts(rows->0@)) == lines_shown(*screen),
{
    let (rows, cols) = screen.size();
    if cols == 0xffff {
        let mut row: u16 = 0;
        while row < rows
            invariant
                cols == 0xffff,
                cols == screen_size(*screen).1,
                row <= rows,
                forall|r: u16| r < row ==> !#[trigger] wide_at(*screen, r, 0xfffe),
            decreases rows - row,
        {
            if let Some(cell) = read_cell(screen, row, 0xfffe) {
                if cell.wide {
                    assert(wide_at(*screen, row, 0xfffe));
                    return None;
                }
            }
            row += 1;
        }
    }
    Some(read_lines(screen, 0, cols))
}

/// The visible part of a screen as plain cells.
pub struct ScreenGrid {
    /// Number of columns of the screen.
    pub cols: u16,
    /// The cells of each row. A row has at least one column.
    pub lines: Vec<Vec<Option<Cell>>>,
}

/// How many columns of a row are looked at.
pub open spec fn grid_width(cols: u16) -> int {
    if cols == 0 {
        1
    } else {
        cols as int
    }
}

impl ScreenGrid {
    /// Every row has one entry per column, and there are at most `u16::MAX`
    /// rows.
    pub open spec fn wf(self) -> bool {
        &&& self.lines.len() <= u16::MAX
        &&& forall|row: int|
            0 <= row < self.lines.len() ==> (#[trigger] self.lines[row]).len() == grid_width(
                self.cols,
            )
    }

    /// The cells by row and column.
    pub open spec fn cells(self) -> Map<(u16, u16), CellContents> {
        Map::new(
            |at: (u16, u16)|
                at.0 < self.lines.len() && at.1 < self.lines[at.0 as int].len()
                    && self.lines[at.0 as int][at.1 as int] is Some,
            |at: (u16, u16)| self.lines[at.0 as int][at.1 as int].unwrap()@,
        )
    }

    /// The cell at a row and column, if there is one.
    pub fn cell(&self, row: u16, col: u16) -> (cell: Option<&Cell>)
        ensures
            cell is Some <==> self.cells().dom().contains((row, col)),
            cell is Some ==> cell.unwrap()@ == self.cells()[(row, col)],
    {
        if (row as usize) < self.lines.len() {
            let line = &self.lines[row as usize];
            if (col as usize) < line.len() {
                return line[col as usize].as_ref();
            }
        }
        None
    }

    /// Reads the visible cells of a screen.
    pub fn read(screen: &vt100::Screen) -> (grid: ScreenGrid)
        ensures
            grid.wf(),
            grid.cols == screen_size(*screen).1,
            grid.lines.len() == screen_size(*screen).0,
            same_cells(grid.cells(), screen_cells(*screen), grid.cols),
    {
        let (rows, cols) = screen.size();
        let width: u16 = if cols == 0 {
            1
        } else {
            cols
        };
        let mut lines: Vec<Vec<Option<Cell>>> = Vec::new();
        let mut row: u16 = 0;
        while row < rows
            invariant
                row <= rows,
                width == grid_width(cols),
                lines.len() == row,
                forall|r: int| 0 <= r < row ==> line_holds(#[trigger] lines[r], *screen, r, width as int),
            decreases rows - row,
        {
            let mut line: Vec<Option<Cell>> = Vec::new();
            let mut col: u16 = 0;
            while col < width
                invariant
                    col <= width,
                    line_holds(line, *screen, row as int, col as int),
                decreases width - col,
            {
                line.push(read_cell(screen, row, col));
                col += 1;
            }
            lines.push(line);
            row += 1;
        }
        let grid = ScreenGrid { cols, lines };
        assert forall|row: u16, col: u16| col < grid_width(cols) implies same_cell(
            grid.cells(),
            screen_cells(*screen),
            row,
            col,
        ) by {
            if row < rows {
                assert(line_holds(grid.lines[row as int], *screen, row as int, width as int));
            } else {
                assert(!grid.cells().dom().contains((row, col)));
            }
        }
        grid
    }
}

spec fn line_holds(line: Vec<Option<Cell>>, screen: vt100::Screen, row: int, width: int) -> bool {
    &&& line.len() == width
    &&& forall|col: int|
        0 <= col < width ==> {
            let at = (row as u16, col as u16);
            &&& (#[trigger] line[col]) is Some <==> screen_cells(screen).dom().contains(at)
            &&& line[col] is Some ==> line[col].unwrap()@ == screen_cells(screen)[at]
        }
}

/// Two grids agree on one cell.
pub open spec fn same_cell(
    left: Map<(u16, u16), CellContents>,
    right: Map<(u16, u16), CellContents>,
    row: u16,
    col: u16,
) -> bool {
    &&& left.dom().contains((row, col)) <==> right.dom().contains((row, col))
    &&& left.dom().contains((row, col)) ==> left[(row, col)] == right[(row, col)]
}

/// Two grids agree on the columns of the screen.
pub open spec fn same_cells(
    left: Map<(u16, u16), CellContents>,
    right: Map<(u16, u16), CellContents>,
    cols: u16,
) -> bool {
    forall|row: u16, col: u16|
        col < grid_width(cols) ==> #[trigger] same_cell(left, right, row, col)
}

/// The cells of a grid are those of its lines: one at a row and a column exactly
/// where the line of that row has one in that column.
pub proof fn grid_cells_are_those_of_the_lines(grid: ScreenGrid, row: u16, col: u16)
    requires
        grid.wf(),
    ensures
        grid.cells().dom().contains((row, col)) <==> row < grid.lines.len() && col < grid_width(
            grid.cols,
        ) && grid.lines[row as int][col as int] is Some,
        grid.cells().dom().contains((row, col)) ==> {
            let cell = grid.lines[row as int][col as int]->0;
            let contents = grid.cells()[(row, col)];
            &&& contents.0 == cell.contents@
            &&& contents.1 == cell.has_contents
            &&& contents.2 == cell.wide
            &&& contents.3 == cell.wide_continuation
            &&& contents.4 == cell.foreground
        },
{
}

/// A row is looked at over all its columns, or over one where it has none.
pub proof fn rows_have_a_column(cols: u16)
    ensures
        grid_width(cols) >= 1,
        cols >= 1 ==> grid_width(cols) == cols,
        cols == 0 ==> grid_width(cols) == 1,
{
}

/// The texts of a list of strings are those of its strings, in their order.
pub proof fn texts_are_those_of_the_strings(rows: Seq<String>, i: int)
    requires
        0 <= i < rows.len(),
    ensures
        texts(rows).len() == rows.len(),
        texts(rows)[i] == rows[i]@,
{
}

/// Grids that agree on the columns of a screen hold the same cells there.
pub proof fn agreeing_grids_hold_the_same(
    left: Map<(u16, u16), CellContents>,
    right: Map<(u16, u16), CellContents>,
    cols: u16,
    row: u16,
    col: u16,
)
    requires
        same_cells(left, right, cols),
        col < cols,
    ensures
        left.dom().contains((row, col)) == right.dom().contains((row, col)),
        left.dom().contains((row, col)) ==> left[(row, col)] == right[(row, col)],
{
    assert(same_cell(left, right, row, col));
}

} // verus!
