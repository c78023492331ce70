//! Text selection on the terminal grid.

use vstd::prelude::*;
use vstd::string::*;

use crate::screen::{
    grid_width, same_cell, same_cells, screen_cells, screen_size, Cell, CellContents, ScreenGrid,
};
use crate::text::{chars_of, string_of};

verus! {

/// A cell of the terminal grid: column `x` and row `y`.
#[derive(Clone, Copy, PartialEq, Eq, Structural, Debug)]
pub struct UVec2 {
    /// Column.
    pub x: u32,
    /// Row.
    pub y: u32,
}

impl UVec2 {
    /// Makes a cell position.
    pub fn new(x: u32, y: u32) -> (cell: Self)
        ensures
            cell == (UVec2 { x, y }),
    {
        UVec2 { x, y }
    }
}

/// The smaller of two numbers.
pub open spec fn least(a: u32, b: u32) -> u32 {
    if a <= b {
        a
    } else {
        b
    }
}

/// The larger of two numbers.
pub open spec fn most(a: u32, b: u32) -> u32 {
    if a <= b {
        b
    } else {
        a
    }
}

/// Normalized selection bounds.
#[derive(Clone, Copy, PartialEq, Eq, Structural, Debug)]
pub struct SelectionBounds {
    /// First selected row.
    pub start_row: u32,
    /// Last selected row.
    pub end_row: u32,
    /// First selected column.
    pub start_col: u32,
    /// Last selected column.
    pub end_col: u32,
}

impl SelectionBounds {
    /// Whether a cell is selected: it lies on a selected row, not before the
    /// first column on the first row and not after the last column on the last
    /// row.
    pub open spec fn covers(self, row: int, col: int) -> bool {
        &&& self.start_row <= row <= self.end_row
        &&& row == self.start_row ==> col >= self.start_col
        &&& row == self.end_row ==> col <= self.end_col
    }

    /// Returns whether a cell is inside the bounds.
    pub fn contains(&self, row: u16, col: u16) -> (inside: bool)
        ensures
            inside == self.covers(row as int, col as int),
    {
        let row: u32 = row as u32;
        let col: u32 = col as u32;
        if row < self.start_row || row > self.end_row {
            return false;
        }
        if self.start_row == self.end_row {
            return col >= self.start_col && col <= self.end_col;
        }
        if row == self.start_row {
            return col >= self.start_col;
        }
        if row == self.end_row {
            return col <= self.end_col;
        }
        true
    }
}

/// The bounds of a selection between two cells.
pub open spec fn bounds_between(start: UVec2, end: UVec2) -> SelectionBounds {
    SelectionBounds {
        start_row: least(start.y, end.y),
        end_row: most(start.y, end.y),
        start_col: least(start.x, end.x),
        end_col: most(start.x, end.x),
    }
}

/// What a cell adds to a selected text: its contents, or a space where it is
/// empty. Missing cells and second halves of wide characters add nothing.
pub open spec fn symbol(cells: Map<(u16, u16), CellContents>, row: u16, col: u16) -> Seq<char> {
    if cells.dom().contains((row, col)) {
        let (contents, has_contents, _, wide_continuation, _) = cells[(row, col)];
        if wide_continuation {
            Seq::empty()
        } else if has_contents {
            contents
        } else {
            seq![' ']
        }
    } else {
        Seq::empty()
    }
}

/// The text of a row from one column up to and including another.
pub open spec fn row_text(
    cells: Map<(u16, u16), CellContents>,
    row: u16,
    from: int,
    to: int,
) -> Seq<char>
    decreases to - from + 1,
{
    if to < from {
        Seq::empty()
    } else {
        row_text(cells, row, from, to - 1) + symbol(cells, row, to as u16)
    }
}

/// A text without its trailing spaces.
pub open spec fn without_trailing_spaces(text: Seq<char>) -> Seq<char>
    decreases text.len(),
{
    if text.len() > 0 && text.last() == ' ' {
        without_trailing_spaces(text.drop_last())
    } else {
        text
    }
}

/// The last column of a screen, or column zero where it has none.
pub open spec fn last_column(cols: u16) -> int {
    grid_width(cols) - 1
}

/// The text of one selected row: from the first column on the first row, up to
/// the last column on the last row, and the whole width otherwise.
pub open spec fn selected_row(
    cells: Map<(u16, u16), CellContents>,
    cols: u16,
    bounds: SelectionBounds,
    row: int,
) -> Seq<char> {
    let first = bounds.start_row as u16;
    let last = bounds.end_row as u16;
    let from = if row == first {
        (bounds.start_col as u16) as int
    } else {
        0
    };
    let to = if row == last && (bounds.end_col as u16) as int <= last_column(cols) {
        (bounds.end_col as u16) as int
    } else {
        last_column(cols)
    };
    let text = row_text(cells, row as u16, from, to);
    if row == last {
        text
    } else {
        without_trailing_spaces(text).push('\n')
    }
}

/// The selected rows up to and including `row`.
pub open spec fn selected_rows(
    cells: Map<(u16, u16), CellContents>,
    cols: u16,
    bounds: SelectionBounds,
    row: int,
) -> Seq<char>
    decreases row - bounds.start_row as u16 + 1,
{
    if row < bounds.start_row as u16 {
        Seq::empty()
    } else {
        selected_rows(cells, cols, bounds, row - 1) + selected_row(cells, cols, bounds, row)
    }
}

/// The selected text. Every row but the last loses its trailing spaces and ends
/// in a line break.
pub open spec fn selected(
    cells: Map<(u16, u16), CellContents>,
    cols: u16,
    bounds: SelectionBounds,
) -> Seq<char> {
    selected_rows(cells, cols, bounds, (bounds.end_row as u16) as int)
}

/// Active terminal text selection. `P` is a pointer position.
pub struct TerminalSelection<P> {
    /// Cell where the selection started.
    pub start: Option<UVec2>,
    /// Cell where the selection ends.
    pub end: Option<UVec2>,
    /// Cell of a press that has not become a selection yet.
    pub pending_start: Option<UVec2>,
    /// Pointer position of that press.
    pub pending_position: Option<P>,
    /// Whether the pointer is dragging the selection.
    pub dragging: bool,
    /// Last known pointer position.
    pub cursor_position: Option<P>,
}

/// The state without a selection.
pub open spec fn cleared<P>() -> TerminalSelection<P> {
    TerminalSelection {
        start: None,
        end: None,
        pending_start: None,
        pending_position: None,
        dragging: false,
        cursor_position: None,
    }
}

impl<P> Default for TerminalSelection<P> {
    fn default() -> (selection: Self)
        ensures
            selection == cleared::<P>(),
            selection.wf(),
    {
        TerminalSelection {
            start: None,
            end: None,
            pending_start: None,
            pending_position: None,
            dragging: false,
            cursor_position: None,
        }
    }
}

impl<P> TerminalSelection<P> {
    /// A selection has both ends or none, a press waiting for a drag has a cell
    /// and a position or neither, the two exclude each other, and only a
    /// selection is dragged.
    pub open spec fn wf(self) -> bool {
        &&& self.start is Some <==> self.end is Some
        &&& self.pending_start is Some <==> self.pending_position is Some
        &&& self.pending_start is Some ==> self.start is None
        &&& self.dragging ==> self.start is Some
    }

    /// Whether anything but the pointer position is set.
    pub open spec fn active(self) -> bool {
        ||| self.start is Some
        ||| self.end is Some
        ||| self.pending_start is Some
        ||| self.pending_position is Some
        ||| self.dragging
    }

    /// The bounds of the selection.
    pub open spec fn bounds(self) -> Option<SelectionBounds> {
        match (self.start, self.end) {
            (Some(start), Some(end)) => Some(bounds_between(start, end)),
            (Some(start), None) => Some(bounds_between(start, start)),
            (None, _) => None,
        }
    }

    /// The selection that a drag from one cell to another makes.
    pub open spec fn dragged(self, start: UVec2, end: UVec2) -> Self {
        TerminalSelection {
            start: Some(start),
            end: Some(end),
            pending_start: None,
            pending_position: None,
            dragging: true,
            cursor_position: self.cursor_position,
        }
    }

    /// The state after a pointer motion to a cell. A dragged selection follows;
    /// a waiting press becomes a selection once the pointer has moved far
    /// enough.
    pub open spec fn moved(self, cell: UVec2, moved_far: bool) -> Self {
        if self.dragging {
            TerminalSelection { end: Some(cell), ..self }
        } else if self.pending_start is Some && self.pending_position is Some && moved_far {
            self.dragged(self.pending_start->0, cell)
        } else {
            self
        }
    }

    /// Whether a pointer motion to a cell changes the selection.
    pub open spec fn moves(self, cell: UVec2, moved_far: bool) -> bool {
        if self.dragging {
            self.end != Some(cell)
        } else {
            self.pending_start is Some && self.pending_position is Some && moved_far
        }
    }

    /// The state after a press that waits for a drag from its cell.
    pub open spec fn armed(self, cell: UVec2, position: P) -> Self {
        TerminalSelection {
            start: None,
            end: None,
            pending_start: Some(cell),
            pending_position: Some(position),
            dragging: false,
            cursor_position: self.cursor_position,
        }
    }

    /// Whether there is a selection to see.
    pub open spec fn shown(self) -> bool {
        self.start is Some || self.end is Some || self.dragging
    }

    /// The state after the end of a drag.
    pub open spec fn released(self) -> Self {
        TerminalSelection {
            pending_start: None,
            pending_position: None,
            dragging: false,
            ..self
        }
    }

    /// Whether starting a selection at a cell changes anything.
    pub open spec fn begins(self, cell: UVec2) -> bool {
        self.start != Some(cell) || self.end != Some(cell) || !self.dragging
    }

    /// Returns normalized selection bounds.
    pub fn normalized_bounds(&self) -> (bounds: Option<SelectionBounds>)
        ensures
            bounds == self.bounds(),
    {
        let start: UVec2 = match self.start {
            Some(start) => start,
            None => return None,
        };
        let end: UVec2 = match self.end {
            Some(end) => end,
            None => start,
        };
        Some(
            SelectionBounds {
                start_row: if start.y <= end.y {
                    start.y
                } else {
                    end.y
                },
                end_row: if start.y <= end.y {
                    end.y
                } else {
                    start.y
                },
                start_col: if start.x <= end.x {
                    start.x
                } else {
                    end.x
                },
                end_col: if start.x <= end.x {
                    end.x
                } else {
                    start.x
                },
            },
        )
    }

    /// Starts a selection at a cell, and returns whether that changes anything.
    pub fn begin(&mut self, cell: UVec2) -> (changed: bool)
        ensures
            *final(self) == old(self).dragged(cell, cell),
            changed == old(self).begins(cell),
            changed == (old(self).start != Some(cell) || old(self).end != Some(cell) || !old(
                self,
            ).dragging),
            final(self).wf(),
    {
        let changed = !is_cell(self.start, cell) || !is_cell(self.end, cell) || !self.dragging;
        self.start = Some(cell);
        self.end = Some(cell);
        self.pending_start = None;
        self.pending_position = None;
        self.dragging = true;
        changed
    }

    /// Arms a selection at a cell without making it visible until the pointer is
    /// dragged, and returns whether a selection disappears.
    pub fn begin_pending(&mut self, cell: UVec2, position: P) -> (changed: bool)
        ensures
            *final(self) == (TerminalSelection {
                start: None,
                end: None,
                pending_start: Some(cell),
                pending_position: Some(position),
                dragging: false,
                cursor_position: old(self).cursor_position,
            }),
            changed == (old(self).start is Some || old(self).end is Some || old(self).dragging),
            *final(self) == old(self).armed(cell, position),
            changed == old(self).shown(),
            final(self).wf(),
    {
        let changed = self.start.is_some() || self.end.is_some() || self.dragging;
        self.start = None;
        self.end = None;
        self.pending_start = Some(cell);
        self.pending_position = Some(position);
        self.dragging = false;
        changed
    }

    /// Updates the end of a dragged selection, and returns whether it moved.
    pub fn update(&mut self, cell: UVec2) -> (changed: bool)
        ensures
            *final(self) == (if old(self).dragging {
                TerminalSelection { end: Some(cell), ..*old(self) }
            } else {
                *old(self)
            }),
            changed == (old(self).dragging && old(self).end != Some(cell)),
            old(self).dragging ==> *final(self) == old(self).moved(cell, true),
            old(self).dragging ==> changed == old(self).moves(cell, true),
            old(self).wf() ==> final(self).wf(),
    {
        if self.dragging && !is_cell(self.end, cell) {
            self.end = Some(cell);
            return true;
        }
        false
    }

    /// Updates the selection from a pointer that is over a cell, and returns
    /// whether it changed. `moved_far` says whether the pointer has left the
    /// drag threshold around a waiting press.
    pub fn update_from_cursor(&mut self, cell: UVec2, moved_far: bool) -> (changed: bool)
        ensures
            *final(self) == old(self).moved(cell, moved_far),
            changed == old(self).moves(cell, moved_far),
            old(self).wf() ==> final(self).wf(),
    {
        if self.dragging {
            return self.update(cell);
        }
        let start: UVec2 = match self.pending_start {
            Some(start) => start,
            None => return false,
        };
        if self.pending_position.is_none() {
            return false;
        }
        if !moved_far {
            return false;
        }
        self.start = Some(start);
        self.end = Some(cell);
        self.pending_start = None;
        self.pending_position = None;
        self.dragging = true;
        true
    }

    /// Ends an in-progress selection, and returns whether there was one.
    pub fn end(&mut self) -> (changed: bool)
        ensures
            *final(self) == (TerminalSelection {
                pending_start: None,
                pending_position: None,
                dragging: false,
                ..*old(self)
            }),
            changed == old(self).dragging,
            *final(self) == old(self).released(),
            old(self).wf() ==> final(self).wf(),
    {
        let changed = self.dragging;
        self.pending_start = None;
        self.pending_position = None;
        self.dragging = false;
        changed
    }

    /// Clears the selection, and returns whether there was anything to clear.
    pub fn clear(&mut self) -> (changed: bool)
        ensures
            *final(self) == cleared::<P>(),
            changed == old(self).active(),
            final(self).wf(),
    {
        let changed = self.start.is_some() || self.end.is_some() || self.pending_start.is_some()
            || self.pending_position.is_some() || self.dragging;
        self.start = None;
        self.end = None;
        self.pending_start = None;
        self.pending_position = None;
        self.dragging = false;
        self.cursor_position = None;
        changed
    }

    /// Stores the current pointer position.
    pub fn set_cursor_position(&mut self, position: P)
        ensures
            *final(self) == (TerminalSelection {
                cursor_position: Some(position),
                ..*old(self)
            }),
            old(self).wf() ==> final(self).wf(),
    {
        self.cursor_position = Some(position);
    }

    /// Returns the selected text of a grid of cells, if there is a selection.
    pub fn selected_text_of(&self, grid: &ScreenGrid) -> (text: Option<String>)
        ensures
            match (self.bounds(), text) {
                (Some(bounds), Some(text)) => text@ == selected(grid.cells(), grid.cols, bounds),
                (None, None) => true,
                _ => false,
            },
    {
        let bounds: SelectionBounds = match self.normalized_bounds() {
            Some(bounds) => bounds,
            None => return None,
        };
        let first: u16 = bounds.start_row as u16;
        let last: u16 = bounds.end_row as u16;
        let start_col: u16 = bounds.start_col as u16;
        let end_col: u16 = bounds.end_col as u16;
        let last_col: u16 = if grid.cols == 0 {
            0
        } else {
            grid.cols - 1
        };
        let mut out: Vec<char> = Vec::new();
        let mut row: u32 = first as u32;
        while row <= last as u32
            invariant
                first == bounds.start_row as u16,
                last == bounds.end_row as u16,
                start_col == bounds.start_col as u16,
                end_col == bounds.end_col as u16,
                last_col == last_column(grid.cols),
                first <= row,
                row <= last + 1 || row == first,
                out@ == selected_rows(grid.cells(), grid.cols, bounds, row - 1),
            decreases last + 1 - row,
        {
            let from: u16 = if row == first as u32 {
                start_col
            } else {
                0
            };
            let to: u16 = if row == last as u32 && end_col <= last_col {
                end_col
            } else {
                last_col
            };
            let mut line: Vec<char> = read_row(grid, row as u16, from, to);
            if row != last as u32 {
                trim_trailing_spaces(&mut line);
                line.push('\n');
            }
            assert(line@ =~= selected_row(grid.cells(), grid.cols, bounds, row as int));
            out.append(&mut line);
            row = row + 1;
        }
        if first > last {
            assert(out@ =~= selected(grid.cells(), grid.cols, bounds));
        }
        Some(string_of(out.as_slice()))
    }

    /// Returns the selected screen text, if there is a selection.
    pub fn selected_text(&self, screen: &vt100::Screen) -> (text: Option<String>)
        ensures
            match (self.bounds(), text) {
                (Some(bounds), Some(text)) => text@ == selected(
                    screen_cells(*screen),
                    screen_size(*screen).1,
                    bounds,
                ),
                (None, None) => true,
                _ => false,
            },
    {
        if self.start.is_none() {
            return None;
        }
        let grid = ScreenGrid::read(screen);
        proof {
            let bounds = self.bounds()->0;
            lemma_same_rows(
                grid.cells(),
                screen_cells(*screen),
                grid.cols,
                bounds,
                (bounds.end_row as u16) as int,
            );
        }
        self.selected_text_of(&grid)
    }
}

impl<P: Copy> TerminalSelection<P> {
    /// Returns the current pointer position.
    pub fn cursor_position(&self) -> (position: Option<P>)
        ensures
            position == self.cursor_position,
    {
        self.cursor_position
    }
}

/// Tests whether an optional cell is a given cell.
fn is_cell(slot: Option<UVec2>, cell: UVec2) -> (r: bool)
    ensures
        r == (slot == Some(cell)),
{
    match slot {
        Some(held) => held == cell,
        None => false,
    }
}

/// Reads the text of a row between two columns.
fn read_row(grid: &ScreenGrid, row: u16, from: u16, to: u16) -> (line: Vec<char>)
    ensures
        line@ == row_text(grid.cells(), row, from as int, to as int),
{
    let mut line: Vec<char> = Vec::new();
    let mut col: u32 = from as u32;
    while col <= to as u32
        invariant
            from <= col,
            col <= to + 1 || col == from,
            line@ == row_text(grid.cells(), row, from as int, col - 1),
        decreases to + 1 - col,
    {
        if let Some(cell) = grid.cell(row, col as u16) {
            if !cell.wide_continuation {
                if cell.has_contents {
                    let mut contents: Vec<char> = chars_of(cell.contents.as_str());
                    line.append(&mut contents);
                } else {
                    line.push(' ');
                }
            }
        }
        assert(line@ =~= row_text(grid.cells(), row, from as int, col - 1) + symbol(
            grid.cells(),
            row,
            col as u16,
        ));
        col = col + 1;
    }
    line
}

/// Removes trailing spaces.
fn trim_trailing_spaces(line: &mut Vec<char>)
    ensures
        final(line)@ == without_trailing_spaces(old(line)@),
{
    while line.len() > 0 && line[line.len() - 1] == ' '
        invariant
            without_trailing_spaces(line@) == without_trailing_spaces(old(line)@),
        decreases line.len(),
    {
        let ghost before = line@;
        line.pop();
        assert(line@ =~= before.drop_last());
    }
}

proof fn lemma_same_row(
    left: Map<(u16, u16), CellContents>,
    right: Map<(u16, u16), CellContents>,
    cols: u16,
    row: u16,
    from: int,
    to: int,
)
    requires
        same_cells(left, right, cols),
        0 <= from,
        to < grid_width(cols),
    ensures
        row_text(left, row, from, to) == row_text(right, row, from, to),
    decreases to - from + 1,
{
    if to >= from {
        lemma_same_row(left, right, cols, row, from, to - 1);
        assert(same_cell(left, right, row, to as u16));
    }
}

proof fn lemma_same_rows(
    left: Map<(u16, u16), CellContents>,
    right: Map<(u16, u16), CellContents>,
    cols: u16,
    bounds: SelectionBounds,
    row: int,
)
    requires
        same_cells(left, right, cols),
    ensures
        selected_rows(left, cols, bounds, row) == selected_rows(right, cols, bounds, row),
    decreases row - bounds.start_row as u16 + 1,
{
    if row >= bounds.start_row as u16 {
        lemma_same_rows(left, right, cols, bounds, row - 1);
        let last = bounds.end_row as u16;
        let from = if row == bounds.start_row as u16 {
            (bounds.start_col as u16) as int
        } else {
            0
        };
        let to = if row == last && (bounds.end_col as u16) as int <= last_column(cols) {
            (bounds.end_col as u16) as int
        } else {
            last_column(cols)
        };
        lemma_same_row(left, right, cols, row as u16, from, to);
    }
}

/// The bounds of a selection do not depend on the direction it was dragged in,
/// and hold both of its ends.
pub proof fn bounds_hold_both_ends(start: UVec2, end: UVec2)
    ensures
        bounds_between(start, end) == bounds_between(end, start),
        bounds_between(start, end).covers(start.y as int, start.x as int),
        bounds_between(start, end).covers(end.y as int, end.x as int),
{
}

/// A press that is released before the pointer has moved far selects nothing,
/// whatever cells the pointer passed.
pub proof fn clicks_select_nothing<P>(pressed: TerminalSelection<P>, passed: Seq<UVec2>)
    requires
        pressed.start is None,
        pressed.end is None,
        !pressed.dragging,
    ensures
        passed.fold_left(pressed, |s: TerminalSelection<P>, cell: UVec2| s.moved(cell, false))
            == pressed,
        pressed.bounds() is None,
    decreases passed.len(),
{
    if passed.len() > 0 {
        clicks_select_nothing(pressed, passed.drop_last());
    }
}

/// Dragging on is the same as having dragged there directly.
pub proof fn drags_follow_the_last_cell<P>(
    selection: TerminalSelection<P>,
    first: UVec2,
    second: UVec2,
    far: bool,
)
    requires
        selection.dragging,
    ensures
        selection.moved(first, far).moved(second, far) == selection.moved(second, far),
{
}

/// A selection on one row is the text between its columns, and copying it adds
/// no line break of its own.
pub proof fn single_rows_are_copied_verbatim(
    cells: Map<(u16, u16), CellContents>,
    cols: u16,
    row: u16,
    from: u16,
    to: u16,
)
    requires
        from <= to < cols,
    ensures
        selected(
            cells,
            cols,
            bounds_between(
                UVec2 { x: from as u32, y: row as u32 },
                UVec2 { x: to as u32, y: row as u32 },
            ),
        ) == row_text(cells, row, from as int, to as int),
{
    let bounds = bounds_between(
        UVec2 { x: from as u32, y: row as u32 },
        UVec2 { x: to as u32, y: row as u32 },
    );
    assert(selected_rows(cells, cols, bounds, row - 1) =~= Seq::<char>::empty());
    assert(selected(cells, cols, bounds) =~= selected_row(cells, cols, bounds, row as int));
}

/// The bounds of a selection are no larger than its ends: each of their rows and
/// columns is one of either end.
pub proof fn bounds_are_tight(start: UVec2, end: UVec2)
    ensures
        ({
            let bounds = bounds_between(start, end);
            &&& bounds.start_row <= start.y <= bounds.end_row
            &&& bounds.start_row <= end.y <= bounds.end_row
            &&& bounds.start_col <= start.x <= bounds.end_col
            &&& bounds.start_col <= end.x <= bounds.end_col
            &&& bounds.start_row == start.y || bounds.start_row == end.y
            &&& bounds.end_row == start.y || bounds.end_row == end.y
            &&& bounds.start_col == start.x || bounds.start_col == end.x
            &&& bounds.end_col == start.x || bounds.end_col == end.x
        }),
{
}

/// The bounds of a selection are those between its ends, or those of its start
/// where it has no other end; without a start there are none.
pub proof fn selections_have_the_bounds_of_their_ends<P>(
    selection: TerminalSelection<P>,
    start: UVec2,
    end: UVec2,
)
    ensures
        ({
            let between = (TerminalSelection {
                start: Some(start),
                end: Some(end),
                ..selection
            });
            between.bounds() == Some(bounds_between(start, end))
        }),
        ({
            let single = (TerminalSelection { start: Some(start), end: None, ..selection });
            single.bounds() == Some(bounds_between(start, start))
        }),
        selection.start is None ==> selection.bounds() is None,
{
}

/// Of a selection over several rows the first row is covered from the first column
/// on, the last row up to the last column, and the rows between as a whole; of one
/// on a single row the columns between are covered. No other row is.
pub proof fn rows_between_are_covered(bounds: SelectionBounds, row: int, col: int)
    requires
        0 <= col,
    ensures
        row < bounds.start_row || row > bounds.end_row ==> !bounds.covers(row, col),
        bounds.start_row < row < bounds.end_row ==> bounds.covers(row, col),
        row == bounds.start_row && row < bounds.end_row ==> (bounds.covers(row, col) <==> col
            >= bounds.start_col),
        row == bounds.end_row && row > bounds.start_row ==> (bounds.covers(row, col) <==> col
            <= bounds.end_col),
        row == bounds.start_row && row == bounds.end_row ==> (bounds.covers(row, col)
            <==> bounds.start_col <= col <= bounds.end_col),
{
}

/// The text of a row is that of its cells from left to right, wherever it is cut.
pub proof fn row_texts_join(
    cells: Map<(u16, u16), CellContents>,
    row: u16,
    from: int,
    middle: int,
    to: int,
)
    requires
        from <= middle + 1,
        middle <= to,
    ensures
        row_text(cells, row, from, to) == row_text(cells, row, from, middle) + row_text(
            cells,
            row,
            middle + 1,
            to,
        ),
        row_text(cells, row, to, to) == symbol(cells, row, to as u16),
        to < from ==> row_text(cells, row, from, to) == Seq::<char>::empty(),
    decreases to - middle,
{
    assert(row_text(cells, row, to, to - 1) =~= Seq::<char>::empty());
    assert(Seq::<char>::empty() + symbol(cells, row, to as u16) =~= symbol(cells, row, to as u16));
    if middle == to {
        assert(row_text(cells, row, middle + 1, to) =~= Seq::<char>::empty());
        assert(row_text(cells, row, from, middle) + Seq::<char>::empty() =~= row_text(
            cells,
            row,
            from,
            middle,
        ));
    } else {
        row_texts_join(cells, row, from, middle, to - 1);
        assert(row_text(cells, row, from, middle) + row_text(cells, row, middle + 1, to - 1)
            + symbol(cells, row, to as u16) =~= row_text(cells, row, from, middle) + (row_text(
            cells,
            row,
            middle + 1,
            to - 1,
        ) + symbol(cells, row, to as u16)));
    }
}

/// What one cell adds to a copied text: its own text, a space where it is empty,
/// and nothing for the second half of a wide character or where there is no cell.
pub proof fn cells_add_their_text(
    cells: Map<(u16, u16), CellContents>,
    cell: Cell,
    row: u16,
    col: u16,
)
    ensures
        !cells.dom().contains((row, col)) ==> symbol(cells, row, col) == Seq::<char>::empty(),
        ({
            let with_cell = cells.insert((row, col), cell@);
            symbol(with_cell, row, col) == (if cell.wide_continuation {
                Seq::empty()
            } else if cell.has_contents {
                cell.contents@
            } else {
                seq![' ']
            })
        }),
{
}

/// Only spaces at the end are taken off, and all of them.
pub proof fn only_trailing_spaces_are_dropped(text: Seq<char>)
    ensures
        without_trailing_spaces(text).is_prefix_of(text),
        forall|i: int|
            without_trailing_spaces(text).len() <= i < text.len() ==> #[trigger] text[i] == ' ',
        without_trailing_spaces(text).len() > 0 ==> without_trailing_spaces(text).last() != ' ',
    decreases text.len(),
{
    if text.len() > 0 && text.last() == ' ' {
        let rest = text.drop_last();
        only_trailing_spaces_are_dropped(rest);
        let kept = without_trailing_spaces(text);
        assert forall|i: int| kept.len() <= i < text.len() implies #[trigger] text[i] == ' ' by {
            if i < rest.len() {
                assert(rest[i] == text[i]);
            }
        }
        assert(text.subrange(0, kept.len() as int) =~= rest.subrange(0, kept.len() as int));
    } else {
        assert(text.subrange(0, text.len() as int) =~= text);
    }
}

/// The first of several selected rows is copied from the first column to the end
/// of the row, without trailing spaces and with a line break. What follows is the
/// selection that starts at the beginning of the next row.
pub proof fn first_rows_are_copied_from_their_column(
    cells: Map<(u16, u16), CellContents>,
    cols: u16,
    bounds: SelectionBounds,
)
    requires
        0 < cols,
        bounds.start_row < bounds.end_row <= u16::MAX,
        bounds.start_col <= u16::MAX,
        bounds.end_col <= u16::MAX,
    ensures
        selected(cells, cols, bounds) == without_trailing_spaces(
            row_text(cells, bounds.start_row as u16, bounds.start_col as int, cols - 1),
        ).push('\n') + selected(
            cells,
            cols,
            SelectionBounds {
                start_row: (bounds.start_row + 1) as u32,
                end_row: bounds.end_row,
                start_col: 0,
                end_col: bounds.end_col,
            },
        ),
{
    lemma_first_row(cells, cols, bounds, bounds.end_row as int);
}

proof fn lemma_first_row(
    cells: Map<(u16, u16), CellContents>,
    cols: u16,
    bounds: SelectionBounds,
    row: int,
)
    requires
        0 < cols,
        bounds.start_row <= row <= bounds.end_row <= u16::MAX,
        bounds.start_row < bounds.end_row,
        bounds.start_col <= u16::MAX,
        bounds.end_col <= u16::MAX,
    ensures
        selected_rows(cells, cols, bounds, row) == without_trailing_spaces(
            row_text(cells, bounds.start_row as u16, bounds.start_col as int, cols - 1),
        ).push('\n') + selected_rows(
            cells,
            cols,
            SelectionBounds {
                start_row: (bounds.start_row + 1) as u32,
                end_row: bounds.end_row,
                start_col: 0,
                end_col: bounds.end_col,
            },
            row,
        ),
    decreases row,
{
    let next = SelectionBounds {
        start_row: (bounds.start_row + 1) as u32,
        end_row: bounds.end_row,
        start_col: 0,
        end_col: bounds.end_col,
    };
    let first = without_trailing_spaces(
        row_text(cells, bounds.start_row as u16, bounds.start_col as int, cols - 1),
    ).push('\n');
    if row == bounds.start_row {
        assert(selected_rows(cells, cols, bounds, row - 1) =~= Seq::<char>::empty());
        assert(selected_rows(cells, cols, next, row) =~= Seq::<char>::empty());
        assert(selected_row(cells, cols, bounds, row) == first);
        assert(selected_rows(cells, cols, bounds, row) =~= first + selected_rows(
            cells,
            cols,
            next,
            row,
        ));
    } else {
        lemma_first_row(cells, cols, bounds, row - 1);
        assert(selected_row(cells, cols, bounds, row) == selected_row(cells, cols, next, row));
        assert(selected_rows(cells, cols, bounds, row) =~= first + selected_rows(
            cells,
            cols,
            next,
            row,
        ));
    }
}

/// The last selected row is copied as it stands, up to the last column of the
/// selection or of the screen, with no line break of its own.
pub proof fn last_rows_are_copied_up_to_their_column(
    cells: Map<(u16, u16), CellContents>,
    cols: u16,
    row: u16,
    from: u16,
    to: u16,
)
    requires
        0 < cols,
    ensures
        selected(
            cells,
            cols,
            SelectionBounds {
                start_row: row as u32,
                end_row: row as u32,
                start_col: from as u32,
                end_col: to as u32,
            },
        ) == row_text(
            cells,
            row,
            from as int,
            if to < cols {
                to as int
            } else {
                cols - 1
            },
        ),
{
    let bounds = SelectionBounds {
        start_row: row as u32,
        end_row: row as u32,
        start_col: from as u32,
        end_col: to as u32,
    };
    assert(selected_rows(cells, cols, bounds, row - 1) =~= Seq::<char>::empty());
    assert(selected(cells, cols, bounds) =~= selected_row(cells, cols, bounds, row as int));
}

/// The rows between the first and the last of a selection are copied as a whole:
/// what is copied of three or more rows holds each of them from its first column.
pub proof fn rows_between_are_copied_whole(
    cells: Map<(u16, u16), CellContents>,
    cols: u16,
    bounds: SelectionBounds,
)
    requires
        0 < cols,
        bounds.start_row + 1 < bounds.end_row <= u16::MAX,
        bounds.start_col <= u16::MAX,
        bounds.end_col <= u16::MAX,
    ensures
        selected(cells, cols, bounds) == without_trailing_spaces(
            row_text(cells, bounds.start_row as u16, bounds.start_col as int, cols - 1),
        ).push('\n') + (without_trailing_spaces(
            row_text(cells, (bounds.start_row + 1) as u16, 0, cols - 1),
        ).push('\n') + selected(
            cells,
            cols,
            SelectionBounds {
                start_row: (bounds.start_row + 2) as u32,
                end_row: bounds.end_row,
                start_col: 0,
                end_col: bounds.end_col,
            },
        )),
{
    first_rows_are_copied_from_their_column(cells, cols, bounds);
    first_rows_are_copied_from_their_column(
        cells,
        cols,
        SelectionBounds {
            start_row: (bounds.start_row + 1) as u32,
            end_row: bounds.end_row,
            start_col: 0,
            end_col: bounds.end_col,
        },
    );
}

/// What is copied of a row is the text of the cells that the bounds cover.
pub proof fn covered_cells_are_copied(
    cells: Map<(u16, u16), CellContents>,
    cols: u16,
    bounds: SelectionBounds,
    row: u16,
)
    requires
        0 < cols,
        bounds.start_row <= row <= bounds.end_row <= u16::MAX,
        bounds.start_col <= u16::MAX,
        bounds.end_col <= u16::MAX,
    ensures
        ({
            let covered = covered_text(cells, row, bounds, cols as int);
            selected_row(cells, cols, bounds, row as int) == (if row == bounds.end_row {
                covered
            } else {
                without_trailing_spaces(covered).push('\n')
            })
        }),
{
    let from = if row == bounds.start_row {
        bounds.start_col as int
    } else {
        0
    };
    let to = if row == bounds.end_row && bounds.end_col < cols {
        bounds.end_col as int
    } else {
        cols - 1
    };
    lemma_covered(cells, cols, bounds, row, from, to, cols as int);
}

/// The text of the covered cells of a row, left of a column.
pub open spec fn covered_text(
    cells: Map<(u16, u16), CellContents>,
    row: u16,
    bounds: SelectionBounds,
    cols: int,
) -> Seq<char>
    decreases cols,
{
    if cols <= 0 {
        Seq::empty()
    } else if bounds.covers(row as int, cols - 1) {
        covered_text(cells, row, bounds, cols - 1) + symbol(cells, row, (cols - 1) as u16)
    } else {
        covered_text(cells, row, bounds, cols - 1)
    }
}

proof fn lemma_covered(
    cells: Map<(u16, u16), CellContents>,
    cols: u16,
    bounds: SelectionBounds,
    row: u16,
    from: int,
    to: int,
    n: int,
)
    requires
        0 <= n <= cols,
        0 <= from,
        forall|col: int| 0 <= col < cols ==> (#[trigger] bounds.covers(row as int, col) <==> from
            <= col <= to),
    ensures
        covered_text(cells, row, bounds, n) == row_text(
            cells,
            row,
            from,
            if to < n - 1 {
                to
            } else {
                n - 1
            },
        ),
    decreases n,
{
    if n > 0 {
        lemma_covered(cells, cols, bounds, row, from, to, n - 1);
        assert(bounds.covers(row as int, n - 1) <==> from <= n - 1 <= to);
        if n - 1 < from && to >= n - 1 {
            assert(row_text(cells, row, from, n - 1) =~= row_text(cells, row, from, n - 2));
        }
        if to < n - 1 && to >= n - 2 {
            assert(to == n - 2);
        }
    }
}

/// A drag from a press to a far cell selects what lies between them, and its
/// release keeps that; a further press drops it.
pub proof fn drags_select_between_their_ends<P>(
    selection: TerminalSelection<P>,
    first: UVec2,
    last: UVec2,
    position: P,
    next: UVec2,
)
    ensures
        ({
            let pressed = selection.armed(first, position);
            let dragged = pressed.moved(last, true);
            let released = dragged.released();
            &&& pressed.bounds() is None && !pressed.dragging
            &&& dragged.bounds() == Some(bounds_between(first, last)) && dragged.dragging
            &&& released.bounds() == Some(bounds_between(first, last)) && !released.dragging
            &&& released.moved(next, true) == released
            &&& !released.moves(next, true)
            &&& released.armed(next, position).bounds() is None
            &&& pressed.released().moved(next, true) == pressed.released()
            &&& selection.dragged(first, first).bounds() == Some(bounds_between(first, first))
            &&& selection.dragged(first, first).dragging
        }),
{
}

/// Events tell of a change exactly where they change the selection.
pub proof fn selection_changes_are_told<P>(
    selection: TerminalSelection<P>,
    cell: UVec2,
    far: bool,
    position: P,
)
    requires
        selection.wf(),
    ensures
        selection.moves(cell, far) <==> selection.moved(cell, far) != selection,
        selection.begins(cell) <==> selection.dragged(cell, cell) != selection,
        selection.shown() <==> selection.bounds() is Some,
        selection.active() <==> selection.bounds() is Some || selection.pending_start is Some,
        selection.wf() ==> selection.moved(cell, far).wf() && selection.released().wf()
            && selection.armed(cell, position).wf() && selection.dragged(cell, cell).wf(),
        cleared::<P>().bounds() is None && !cleared::<P>().active(),
        cleared::<P>().cursor_position is None,
{
}

/// The pointer position is no part of a drag: none of its steps changes it.
pub proof fn drags_keep_the_pointer<P>(
    selection: TerminalSelection<P>,
    cell: UVec2,
    far: bool,
    position: P,
)
    ensures
        selection.moved(cell, far).cursor_position == selection.cursor_position,
        selection.released().cursor_position == selection.cursor_position,
        selection.armed(cell, position).cursor_position == selection.cursor_position,
        selection.dragged(cell, cell).cursor_position == selection.cursor_position,
{
}

/// Rows and columns are counted in sixteen bits: what is copied depends on nothing
/// above them.
pub proof fn rows_and_columns_are_counted_in_sixteen_bits(
    cells: Map<(u16, u16), CellContents>,
    cols: u16,
    bounds: SelectionBounds,
)
    ensures
        ({
            let low = (SelectionBounds {
                start_row: bounds.start_row % 0x10000,
                end_row: bounds.end_row % 0x10000,
                start_col: bounds.start_col % 0x10000,
                end_col: bounds.end_col % 0x10000,
            });
            selected(cells, cols, bounds) == selected(cells, cols, low)
        }),
{
    let low = SelectionBounds {
        start_row: bounds.start_row % 0x10000,
        end_row: bounds.end_row % 0x10000,
        start_col: bounds.start_col % 0x10000,
        end_col: bounds.end_col % 0x10000,
    };
    lemma_sixteen_bits(bounds.start_row);
    lemma_sixteen_bits(bounds.end_row);
    lemma_sixteen_bits(bounds.start_col);
    lemma_sixteen_bits(bounds.end_col);
    lemma_same_low_bits(cells, cols, bounds, low, (bounds.end_row as u16) as int);
}

proof fn lemma_sixteen_bits(n: u32)
    ensures
        (n as u16) as u32 == n % 0x10000,
        (n % 0x10000) as u16 == n as u16,
{
    assert((n as u16) as u32 == n % 0x10000) by (bit_vector);
    assert((n % 0x10000) as u16 == n as u16) by (bit_vector);
}

proof fn lemma_same_low_bits(
    cells: Map<(u16, u16), CellContents>,
    cols: u16,
    left: SelectionBounds,
    right: SelectionBounds,
    row: int,
)
    requires
        left.start_row as u16 == right.start_row as u16,
        left.end_row as u16 == right.end_row as u16,
        left.start_col as u16 == right.start_col as u16,
        left.end_col as u16 == right.end_col as u16,
    ensures
        selected_rows(cells, cols, left, row) == selected_rows(cells, cols, right, row),
    decreases row - left.start_row as u16 + 1,
{
    if row >= left.start_row as u16 {
        lemma_same_low_bits(cells, cols, left, right, row - 1);
    }
}

/// Nothing is copied of rows that end before they start, and a screen without
/// columns is looked at as if it had one.
pub proof fn odd_screens_and_rows(cells: Map<(u16, u16), CellContents>, cols: u16, bounds: SelectionBounds)
    ensures
        bounds.end_row < bounds.start_row <= u16::MAX ==> selected(cells, cols, bounds) == Seq::<
            char,
        >::empty(),
        selected(cells, 0, bounds) == selected(cells, 1, bounds),
{
    lemma_no_columns(cells, bounds, (bounds.end_row as u16) as int);
}

proof fn lemma_no_columns(cells: Map<(u16, u16), CellContents>, bounds: SelectionBounds, row: int)
    ensures
        selected_rows(cells, 0, bounds, row) == selected_rows(cells, 1, bounds, row),
    decreases row - bounds.start_row as u16 + 1,
{
    if row >= bounds.start_row as u16 {
        lemma_no_columns(cells, bounds, row - 1);
    }
}

} // verus!
