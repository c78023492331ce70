//! Placing Kitty images by the placeholder cells on the screen.

use std::collections::HashMap;

use vstd::prelude::*;
use vstd::std_specs::hash::*;
use vstd::string::*;

use crate::inline::{InlineAnchor, InlineObject};
use crate::maps::{key_order, keys_of};
use crate::screen::{
    same_cell, same_cells, screen_cells, screen_size, Cell, CellContents, Color, ScreenGrid,
};
use crate::sequences::{lemma_filter_next, lemma_filtered, lemma_push_holds};
use crate::text::chars_of;

verus! {

broadcast use group_hash_axioms;

/// The character that placeholder cells start with.
pub const PLACEHOLDER: char = '\u{10EEEE}';

/// The part of an object identifier that a color can carry: its low 24 bits.
pub open spec fn color_tag(id: u32) -> u32 {
    id & 0x00ff_ffff
}

/// The identifier that a placeholder cell carries in its foreground color.
pub open spec fn cell_tag(contents: CellContents) -> Option<u32> {
    let (text, _, _, _, foreground) = contents;
    match foreground {
        Color::Rgb(r, g, b) if text.len() > 0 && text[0] == PLACEHOLDER => Some(
            (r * 0x10000 + g * 0x100 + b) as u32,
        ),
        _ => None,
    }
}

/// The object that a color tag stands for: the last one with that tag.
pub open spec fn owner(ids: Seq<u32>, tag: u32) -> Option<u32>
    decreases ids.len(),
{
    if ids.len() == 0 {
        None
    } else if color_tag(ids.last()) == tag {
        Some(ids.last())
    } else {
        owner(ids.drop_last(), tag)
    }
}

/// The cells that belong to an object.
pub open spec fn marks(
    cells: Map<(u16, u16), CellContents>,
    rows: int,
    cols: int,
    ids: Seq<u32>,
    id: u32,
) -> Set<(u16, u16)> {
    Set::new(
        |at: (u16, u16)|
            at.0 < rows && at.1 < cols && cells.dom().contains(at) && cell_tag(cells[at]) is Some
                && owner(ids, cell_tag(cells[at])->0) == Some(id),
    )
}

/// A rectangle of cells, both ends included.
#[derive(Clone, Copy, PartialEq, Eq, Structural, Debug)]
pub struct CellBox {
    /// First row.
    pub top: u16,
    /// First column.
    pub left: u16,
    /// Last row.
    pub bottom: u16,
    /// Last column.
    pub right: u16,
}

/// Whether a rectangle is the smallest one around a set of cells.
pub open spec fn encloses(frame: CellBox, cells: Set<(u16, u16)>) -> bool {
    &&& forall|at: (u16, u16)| #[trigger]
        cells.contains(at) ==> frame.top <= at.0 <= frame.bottom && frame.left <= at.1
            <= frame.right
    &&& exists|at: (u16, u16)| #[trigger] cells.contains(at) && at.0 == frame.top
    &&& exists|at: (u16, u16)| #[trigger] cells.contains(at) && at.0 == frame.bottom
    &&& exists|at: (u16, u16)| #[trigger] cells.contains(at) && at.1 == frame.left
    &&& exists|at: (u16, u16)| #[trigger] cells.contains(at) && at.1 == frame.right
}

/// Whether an anchor covers exactly a rectangle, in a given style.
pub open spec fn anchors_box<S>(anchor: InlineAnchor<S>, frame: CellBox, style: S) -> bool {
    &&& anchor.row == frame.top
    &&& anchor.col == frame.left
    &&& anchor.columns == frame.right - frame.left + 1
    &&& anchor.rows == frame.bottom - frame.top + 1
    &&& anchor.style == style
}

/// Whether two anchors cover the same cells.
pub open spec fn same_place<S>(left: InlineAnchor<S>, right: InlineAnchor<S>) -> bool {
    left.row == right.row && left.col == right.col && left.columns == right.columns && left.rows
        == right.rows
}

/// Whether an object is anchored around its cells, or not anchored where it has
/// none.
pub open spec fn anchored<S>(
    anchors: Map<u32, InlineAnchor<S>>,
    id: u32,
    cells: Set<(u16, u16)>,
    style: S,
) -> bool {
    if exists|at: (u16, u16)| #[trigger] cells.contains(at) {
        &&& anchors.dom().contains(id)
        &&& exists|frame: CellBox| #[trigger]
            encloses(frame, cells) && anchors_box(anchors[id], frame, style)
    } else {
        !anchors.dom().contains(id)
    }
}

/// Whether the place of an object differs between two sets of anchors.
pub open spec fn place_changed<S>(
    before: Map<u32, InlineAnchor<S>>,
    after: Map<u32, InlineAnchor<S>>,
    id: u32,
) -> bool {
    if after.dom().contains(id) {
        !before.dom().contains(id) || !same_place(before[id], after[id])
    } else {
        before.dom().contains(id)
    }
}

/// Whether the anchors of the given objects have been placed, all other anchors
/// have been kept, and `changed` tells whether any object got another place.
pub open spec fn placed<S>(
    ids: Seq<u32>,
    before: Map<u32, InlineAnchor<S>>,
    after: Map<u32, InlineAnchor<S>>,
    cells: Map<(u16, u16), CellContents>,
    rows: int,
    cols: int,
    style: S,
    changed: bool,
) -> bool {
    &&& forall|id: u32| #[trigger]
        ids.contains(id) ==> anchored(after, id, marks(cells, rows, cols, ids, id), style)
    &&& forall|id: u32|
        !ids.contains(id) ==> {
            &&& #[trigger] after.dom().contains(id) <==> before.dom().contains(id)
            &&& after.dom().contains(id) ==> after[id] == before[id]
        }
    &&& changed <==> exists|id: u32| #[trigger]
        ids.contains(id) && place_changed(before, after, id)
}

/// Whether an object is placed by placeholder cells.
pub open spec fn uses_placeholders<H, P, R>(objects: Map<u32, InlineObject<H, P, R>>, id: u32) -> bool {
    objects.dom().contains(id) && (objects[id] matches InlineObject::KittyImage(object)
        && object.uses_placeholders)
}

/// Whether a sequence lists the objects that are placed by placeholder cells,
/// each of them once.
pub open spec fn lists_placeholders<H, P, R>(
    ids: Seq<u32>,
    objects: Map<u32, InlineObject<H, P, R>>,
) -> bool {
    &&& ids.no_duplicates()
    &&& forall|id: u32| #[trigger] ids.contains(id) <==> uses_placeholders(objects, id)
}

/// The objects that are placed by placeholder cells, in the order in which the map
/// of the objects is walked.
pub open spec fn placeholder_order<H, P, R>(objects: HashMap<u32, InlineObject<H, P, R>>) -> Seq<
    u32,
> {
    key_order(objects).filter(|id: u32| uses_placeholders(objects@, id))
}

/// Lists the objects that are placed by placeholder cells, in the order in which
/// the map is walked.
pub fn placeholder_ids<H, P, R>(objects: &HashMap<u32, InlineObject<H, P, R>>) -> (ids: Vec<u32>)
    ensures
        ids@ == placeholder_order(*objects),
        lists_placeholders(ids@, objects@),
{
    let keys = keys_of(objects);
    let ghost wanted = |id: u32| uses_placeholders(objects@, id);
    let mut ids: Vec<u32> = Vec::new();
    let mut i: usize = 0;
    assert(keys@.take(0).filter(wanted) =~= Seq::<u32>::empty()) by {
        reveal(Seq::filter);
    }
    while i < keys.len()
        invariant
            i <= keys.len(),
            forall|id: u32| #[trigger] keys@.contains(id) <==> objects@.dom().contains(id),
            wanted == |id: u32| uses_placeholders(objects@, id),
            ids@ == keys@.take(i as int).filter(wanted),
        decreases keys.len() - i,
    {
        let id: u32 = keys[i];
        proof {
            lemma_filter_next(keys@, wanted, i as int);
            assert(keys@.contains(keys@[i as int]));
        }
        let shown = match objects.get(&id) {
            Some(InlineObject::KittyImage(object)) => object.uses_placeholders,
            _ => false,
        };
        if shown {
            ids.push(id);
        }
        i = i + 1;
    }
    proof {
        assert(keys@.take(keys.len() as int) =~= keys@);
        lemma_filtered(keys@, wanted);
    }
    ids
}

/// Whether a slot holds the smallest rectangle around a set of cells, or nothing
/// where the set is empty.
pub open spec fn slot_encloses(slot: Option<CellBox>, cells: Set<(u16, u16)>) -> bool {
    match slot {
        Some(frame) => encloses(frame, cells),
        None => forall|at: (u16, u16)| !#[trigger] cells.contains(at),
    }
}

/// Extends a rectangle to one more cell.
fn extended(slot: Option<CellBox>, row: u16, col: u16, Ghost(cells): Ghost<Set<(u16, u16)>>) -> (r:
    Option<CellBox>)
    requires
        slot_encloses(slot, cells),
    ensures
        slot_encloses(r, cells.insert((row, col))),
{
    let ghost more = cells.insert((row, col));
    assert(more.contains((row, col)));
    match slot {
        Some(frame) => {
            let next = CellBox {
                top: if row < frame.top {
                    row
                } else {
                    frame.top
                },
                left: if col < frame.left {
                    col
                } else {
                    frame.left
                },
                bottom: if row > frame.bottom {
                    row
                } else {
                    frame.bottom
                },
                right: if col > frame.right {
                    col
                } else {
                    frame.right
                },
            };
            proof {
                let top = choose|at: (u16, u16)| #[trigger] cells.contains(at) && at.0 == frame.top;
                let bottom = choose|at: (u16, u16)| #[trigger]
                    cells.contains(at) && at.0 == frame.bottom;
                let left = choose|at: (u16, u16)| #[trigger]
                    cells.contains(at) && at.1 == frame.left;
                let right = choose|at: (u16, u16)| #[trigger]
                    cells.contains(at) && at.1 == frame.right;
                assert(more.contains(top));
                assert(more.contains(bottom));
                assert(more.contains(left));
                assert(more.contains(right));
                assert(encloses(next, more));
            }
            Some(next)
        },
        None => {
            let next = CellBox { top: row, left: col, bottom: row, right: col };
            assert(encloses(next, more));
            Some(next)
        },
    }
}

/// Reads the identifier that a placeholder cell carries.
fn read_tag(cell: &Cell) -> (tag: Option<u32>)
    ensures
        tag == cell_tag(cell@),
{
    match cell.foreground {
        Color::Rgb(r, g, b) => {
            let text: Vec<char> = chars_of(cell.contents.as_str());
            if text.len() > 0 && text[0] == PLACEHOLDER {
                assert((((r as u32) << 16) | ((g as u32) << 8) | (b as u32)) == r * 0x10000 + g
                    * 0x100 + b) by (bit_vector);
                Some(((r as u32) << 16) | ((g as u32) << 8) | (b as u32))
            } else {
                None
            }
        },
        _ => None,
    }
}

/// Maps color tags to the positions of their objects.
fn tag_positions(ids: &[u32]) -> (positions: HashMap<u32, usize>)
    ensures
        positions_hold(positions@, ids@),
{
    let mut positions: HashMap<u32, usize> = HashMap::new();
    let mut i: usize = 0;
    while i < ids.len()
        invariant
            i <= ids.len(),
            positions_hold(positions@, ids@.take(i as int)),
        decreases ids.len() - i,
    {
        let ghost before = positions@;
        positions.insert(ids[i] & 0x00ff_ffff, i);
        assert(ids@.take(i + 1).drop_last() =~= ids@.take(i as int));
        let ghost longer = ids@.take(i + 1);
        assert forall|tag: u32| #[trigger] position_holds(positions@, longer, tag) by {
            assert(position_holds(before, ids@.take(i as int), tag));
        }
        i = i + 1;
    }
    assert(ids@.take(i as int) =~= ids@);
    positions
}

spec fn position_holds(positions: Map<u32, usize>, ids: Seq<u32>, tag: u32) -> bool {
    &&& positions.dom().contains(tag) <==> owner(ids, tag) is Some
    &&& positions.dom().contains(tag) ==> positions[tag] < ids.len() && owner(ids, tag) == Some(
        ids[positions[tag] as int],
    )
}

spec fn positions_hold(positions: Map<u32, usize>, ids: Seq<u32>) -> bool {
    forall|tag: u32| #[trigger] position_holds(positions, ids, tag)
}

/// The cells before a position in reading order.
spec fn read_before(row: int, col: int) -> Set<(u16, u16)> {
    Set::new(|at: (u16, u16)| at.0 < row || (at.0 == row && at.1 < col))
}

spec fn slots_enclose(
    slots: Seq<Option<CellBox>>,
    cells: Map<(u16, u16), CellContents>,
    rows: int,
    cols: int,
    ids: Seq<u32>,
    read: Set<(u16, u16)>,
) -> bool {
    &&& slots.len() == ids.len()
    &&& forall|k: int|
        0 <= k < ids.len() ==> slot_encloses(
            #[trigger] slots[k],
            marks(cells, rows, cols, ids, ids[k]).intersect(read),
        )
}

/// Finds the smallest rectangle around the cells of each object.
fn object_boxes(grid: &ScreenGrid, ids: &[u32]) -> (slots: Vec<Option<CellBox>>)
    requires
        grid.wf(),
        ids@.no_duplicates(),
    ensures
        slots.len() == ids.len(),
        forall|k: int|
            0 <= k < ids.len() ==> slot_encloses(
                #[trigger] slots[k],
                marks(grid.cells(), grid.lines.len() as int, grid.cols as int, ids@, ids[k]),
            ),
{
    let positions = tag_positions(ids);
    let rows: u16 = grid.lines.len() as u16;
    let cols: u16 = grid.cols;
    let mut slots: Vec<Option<CellBox>> = Vec::new();
    let mut k: usize = 0;
    while k < ids.len()
        invariant
            k <= ids.len(),
            slots.len() == k,
            forall|i: int| 0 <= i < k ==> #[trigger] slots[i] is None,
        decreases ids.len() - k,
    {
        slots.push(None);
        k = k + 1;
    }
    let mut row: u16 = 0;
    while row < rows
        invariant
            row <= rows,
            rows == grid.lines.len(),
            cols == grid.cols,
            ids@.no_duplicates(),
            positions_hold(positions@, ids@),
            slots_enclose(
                slots@,
                grid.cells(),
                rows as int,
                cols as int,
                ids@,
                read_before(row as int, 0),
            ),
        decreases rows - row,
    {
        let mut col: u16 = 0;
        while col < cols
            invariant
                row < rows,
                col <= cols,
                rows == grid.lines.len(),
                cols == grid.cols,
                ids@.no_duplicates(),
                positions_hold(positions@, ids@),
                slots_enclose(
                    slots@,
                    grid.cells(),
                    rows as int,
                    cols as int,
                    ids@,
                    read_before(row as int, col as int),
                ),
            decreases cols - col,
        {
            let tag: Option<u32> = match grid.cell(row, col) {
                Some(cell) => read_tag(cell),
                None => None,
            };
            let found: Option<usize> = match tag {
                Some(tag) => match positions.get(&tag) {
                    Some(position) => Some(*position),
                    None => None,
                },
                None => None,
            };
            let ghost cells = grid.cells();
            let ghost read = read_before(row as int, col as int);
            let ghost next = read_before(row as int, col + 1);
            let ghost at = (row, col);
            let ghost before = slots@;
            proof {
                if tag is Some {
                    assert(position_holds(positions@, ids@, tag->0));
                }
            }
            assert forall|k: int| 0 <= k < ids.len() implies marks(
                cells,
                rows as int,
                cols as int,
                ids@,
                #[trigger] ids@[k],
            ).intersect(next) == (if found == Some(k as usize) {
                marks(cells, rows as int, cols as int, ids@, ids@[k]).intersect(read).insert(at)
            } else {
                marks(cells, rows as int, cols as int, ids@, ids@[k]).intersect(read)
            }) by {
                let all = marks(cells, rows as int, cols as int, ids@, ids@[k]);
                assert(all.contains(at) <==> found == Some(k as usize));
                if found == Some(k as usize) {
                    assert(all.intersect(next) =~= all.intersect(read).insert(at));
                } else {
                    assert(all.intersect(next) =~= all.intersect(read));
                }
            }
            if let Some(position) = found {
                let slot = extended(
                    slots[position],
                    row,
                    col,
                    Ghost(
                        marks(cells, rows as int, cols as int, ids@, ids@[position as int]).intersect(
                            read,
                        ),
                    ),
                );
                slots.set(position, slot);
            }
            assert forall|k: int| 0 <= k < ids.len() implies slot_encloses(
                #[trigger] slots@[k],
                marks(cells, rows as int, cols as int, ids@, ids@[k]).intersect(next),
            ) by {
                assert(slot_encloses(
                    before[k],
                    marks(cells, rows as int, cols as int, ids@, ids@[k]).intersect(read),
                ));
            }
            col = col + 1;
        }
        assert forall|k: int| 0 <= k < ids.len() implies slot_encloses(
            #[trigger] slots@[k],
            marks(grid.cells(), rows as int, cols as int, ids@, ids@[k]).intersect(
                read_before(row + 1, 0),
            ),
        ) by {
            let all = marks(grid.cells(), rows as int, cols as int, ids@, ids@[k]);
            assert(all.intersect(read_before(row + 1, 0)) =~= all.intersect(
                read_before(row as int, cols as int),
            ));
        }
        row = row + 1;
    }
    assert forall|k: int| 0 <= k < ids.len() implies slot_encloses(
        #[trigger] slots@[k],
        marks(grid.cells(), rows as int, cols as int, ids@, ids@[k]),
    ) by {
        let all = marks(grid.cells(), rows as int, cols as int, ids@, ids@[k]);
        assert(all.intersect(read_before(rows as int, 0)) =~= all);
    }
    slots
}

/// Anchors each of the given objects around its placeholder cells, and drops the
/// anchors of those without any. Returns whether any object got another place.
pub fn place_anchors<S: Copy>(
    ids: &[u32],
    anchors: &mut HashMap<u32, InlineAnchor<S>>,
    grid: &ScreenGrid,
    style: S,
) -> (changed: bool)
    requires
        grid.wf(),
        ids@.no_duplicates(),
    ensures
        placed(
            ids@,
            old(anchors)@,
            final(anchors)@,
            grid.cells(),
            grid.lines.len() as int,
            grid.cols as int,
            style,
            changed,
        ),
{
    let slots = object_boxes(grid, ids);
    let ghost before = anchors@;
    let ghost cells = grid.cells();
    let ghost rows = grid.lines.len() as int;
    let ghost cols = grid.cols as int;
    let mut changed = false;
    let mut i: usize = 0;
    while i < ids.len()
        invariant
            i <= ids.len(),
            slots.len() == ids.len(),
            ids@.no_duplicates(),
            before == old(anchors)@,
            cells == grid.cells(),
            rows == grid.lines.len(),
            cols == grid.cols,
            rows <= u16::MAX,
            forall|k: int|
                0 <= k < ids.len() ==> slot_encloses(
                    #[trigger] slots[k],
                    marks(cells, rows, cols, ids@, ids[k]),
                ),
            forall|k: int|
                0 <= k < i ==> anchored(
                    anchors@,
                    #[trigger] ids[k],
                    marks(cells, rows, cols, ids@, ids[k]),
                    style,
                ),
            forall|id: u32|
                !ids@.take(i as int).contains(id) ==> {
                    &&& #[trigger] anchors@.dom().contains(id) <==> before.dom().contains(id)
                    &&& anchors@.dom().contains(id) ==> anchors@[id] == before[id]
                },
            changed <==> exists|k: int|
                0 <= k < i && place_changed(before, anchors@, #[trigger] ids[k]),
        decreases ids.len() - i,
    {
        let id: u32 = ids[i];
        let ghost own = marks(cells, rows, cols, ids@, id);
        let ghost earlier = anchors@;
        let ghost changed_before = changed;
        proof {
            assert(slot_encloses(slots[i as int], own));
            assert(ids@.take(i as int).contains(id) ==> false) by {
                if ids@.take(i as int).contains(id) {
                    let k = choose|k: int| 0 <= k < i && ids@.take(i as int)[k] == id;
                    assert(ids@[k] == ids@[i as int]);
                }
            }
        }
        match slots[i] {
            Some(frame) => {
                proof {
                    let at = choose|at: (u16, u16)| #[trigger]
                        own.contains(at) && at.0 == frame.top;
                    let low = choose|at: (u16, u16)| #[trigger]
                        own.contains(at) && at.0 == frame.bottom;
                    let right = choose|at: (u16, u16)| #[trigger]
                        own.contains(at) && at.1 == frame.right;
                    assert(own.contains(at));
                    assert(frame.left <= at.1 <= frame.right);
                    assert(own.contains(low) && own.contains(right));
                }
                let columns: u32 = (frame.right - frame.left + 1) as u32;
                let lines: u32 = (frame.bottom - frame.top + 1) as u32;
                let anchor = InlineAnchor {
                    row: frame.top,
                    col: frame.left,
                    columns,
                    rows: lines,
                    style,
                };
                assert(anchors_box(anchor, frame, style));
                let moved = match anchors.insert(id, anchor) {
                    Some(old_anchor) => old_anchor.row != frame.top || old_anchor.col != frame.left
                        || old_anchor.columns != columns || old_anchor.rows != lines,
                    None => true,
                };
                changed = changed || moved;
                assert(moved == place_changed(before, anchors@, id));
                assert(anchored(anchors@, id, own, style));
            },
            None => {
                let dropped = anchors.remove(&id).is_some();
                changed = changed || dropped;
                assert(dropped == place_changed(before, anchors@, id));
                assert(anchored(anchors@, id, own, style));
            },
        }
        assert forall|k: int| 0 <= k < i implies {
            &&& anchors@.dom().contains(ids[k]) == earlier.dom().contains(ids[k])
            &&& anchors@.dom().contains(ids[k]) ==> anchors@[ids[k]] == earlier[#[trigger] ids[k]]
        } by {
            assert(ids@[k] != ids@[i as int]);
        }
        assert forall|other: u32| !ids@.take(i + 1).contains(other) implies {
            &&& #[trigger] anchors@.dom().contains(other) <==> before.dom().contains(other)
            &&& anchors@.dom().contains(other) ==> anchors@[other] == before[other]
        } by {
            assert(ids@.take(i + 1) =~= ids@.take(i as int).push(id));
            lemma_push_holds(ids@.take(i as int), id, other);
        }
        assert(changed <==> exists|k: int|
            0 <= k < i + 1 && place_changed(before, anchors@, #[trigger] ids[k])) by {
            if changed_before {
                let k = choose|k: int|
                    0 <= k < i && place_changed(before, earlier, #[trigger] ids[k]);
                assert(place_changed(before, anchors@, ids[k]));
            }
            if exists|k: int|
                0 <= k < i + 1 && place_changed(before, anchors@, #[trigger] ids[k]) {
                let k = choose|k: int|
                    0 <= k < i + 1 && place_changed(before, anchors@, #[trigger] ids[k]);
                if k < i {
                    assert(place_changed(before, earlier, ids[k]));
                } else {
                    assert(ids[k] == id);
                }
            }
            assert(place_changed(before, anchors@, id) ==> place_changed(
                before,
                anchors@,
                ids[i as int],
            ));
        }
        i = i + 1;
    }
    assert(ids@.take(i as int) =~= ids@);
    proof {
        assert forall|id: u32| #[trigger] ids@.contains(id) implies anchored(
            anchors@,
            id,
            marks(cells, rows, cols, ids@, id),
            style,
        ) by {
            let k = choose|k: int| 0 <= k < ids.len() && ids@[k] == id;
            assert(ids[k] == id);
        }
        if changed {
            let k = choose|k: int|
                0 <= k < i && place_changed(before, anchors@, #[trigger] ids[k]);
            assert(ids@.contains(ids@[k]));
        }
        if exists|id: u32| #[trigger] ids@.contains(id) && place_changed(before, anchors@, id) {
            let id = choose|id: u32| #[trigger]
                ids@.contains(id) && place_changed(before, anchors@, id);
            let k = choose|k: int| 0 <= k < ids.len() && ids@[k] == id;
            assert(place_changed(before, anchors@, ids[k]));
        }
    }
    changed
}

/// Whether the anchors of all objects that are placed by placeholder cells have
/// been placed, each object once, in the order in which their map is walked.
pub open spec fn refreshed<H, P, R, S>(
    objects: HashMap<u32, InlineObject<H, P, R>>,
    before: Map<u32, InlineAnchor<S>>,
    after: Map<u32, InlineAnchor<S>>,
    cells: Map<(u16, u16), CellContents>,
    rows: int,
    cols: int,
    style: S,
    changed: bool,
) -> bool {
    let ids = placeholder_order(objects);
    &&& lists_placeholders(ids, objects@)
    &&& placed(ids, before, after, cells, rows, cols, style, changed)
}

/// Refreshes placeholder-backed Kitty anchors from the screen. The order in which
/// the objects are walked matters only where two of them share a color tag: the
/// last one has the cells.
pub fn refresh_kitty_placeholder_anchors<H, P, R, S: Copy>(
    objects: &HashMap<u32, InlineObject<H, P, R>>,
    anchors: &mut HashMap<u32, InlineAnchor<S>>,
    screen: &vt100::Screen,
    style: S,
) -> (changed: bool)
    ensures
        refreshed(
            *objects,
            old(anchors)@,
            final(anchors)@,
            screen_cells(*screen),
            screen_size(*screen).0 as int,
            screen_size(*screen).1 as int,
            style,
            changed,
        ),
{
    let ids = placeholder_ids(objects);
    if ids.len() == 0 {
        return false;
    }
    let grid = ScreenGrid::read(screen);
    proof {
        assert forall|id: u32| #[trigger]
            marks(grid.cells(), grid.lines.len() as int, grid.cols as int, ids@, id) == marks(
                screen_cells(*screen),
                grid.lines.len() as int,
                grid.cols as int,
                ids@,
                id,
            ) by {
            lemma_same_marks(
                grid.cells(),
                screen_cells(*screen),
                grid.lines.len() as int,
                grid.cols,
                ids@,
                id,
            );
        }
    }
    place_anchors(ids.as_slice(), anchors, &grid, style)
}

proof fn lemma_same_marks(
    left: Map<(u16, u16), CellContents>,
    right: Map<(u16, u16), CellContents>,
    rows: int,
    cols: u16,
    ids: Seq<u32>,
    id: u32,
)
    requires
        same_cells(left, right, cols),
    ensures
        marks(left, rows, cols as int, ids, id) == marks(right, rows, cols as int, ids, id),
{
    assert forall|at: (u16, u16)|
        marks(left, rows, cols as int, ids, id).contains(at) <==> marks(
            right,
            rows,
            cols as int,
            ids,
            id,
        ).contains(at) by {
        if at.1 < cols {
            assert(same_cell(left, right, at.0, at.1));
        }
    }
    assert(marks(left, rows, cols as int, ids, id) =~= marks(right, rows, cols as int, ids, id));
}

/// Where no other listed object has the color tag of an object, the tag stands for
/// that object, whatever order the objects are listed in.
pub proof fn lone_tags_have_one_owner(ids: Seq<u32>, id: u32)
    requires
        forall|i: int|
            0 <= i < ids.len() && color_tag(#[trigger] ids[i]) == color_tag(id) ==> ids[i] == id,
        ids.contains(id),
    ensures
        owner(ids, color_tag(id)) == Some(id),
    decreases ids.len(),
{
    let k = choose|k: int| 0 <= k < ids.len() && ids[k] == id;
    if color_tag(ids.last()) != color_tag(id) {
        assert(k < ids.len() - 1);
        assert(ids.drop_last()[k] == id);
        lone_tags_have_one_owner(ids.drop_last(), id);
    }
}

/// A set of cells has at most one smallest rectangle around it.
pub proof fn boxes_are_unique(left: CellBox, right: CellBox, cells: Set<(u16, u16)>)
    requires
        encloses(left, cells),
        encloses(right, cells),
    ensures
        left == right,
{
}

proof fn lemma_anchored_once<S>(
    left: Map<u32, InlineAnchor<S>>,
    right: Map<u32, InlineAnchor<S>>,
    id: u32,
    own: Set<(u16, u16)>,
    style: S,
)
    requires
        anchored(left, id, own, style),
        anchored(right, id, own, style),
    ensures
        right.dom().contains(id) == left.dom().contains(id),
        right.dom().contains(id) ==> right[id] == left[id],
{
    if exists|at: (u16, u16)| #[trigger] own.contains(at) {
        let one = choose|frame: CellBox| #[trigger]
            encloses(frame, own) && anchors_box(left[id], frame, style);
        let other = choose|frame: CellBox| #[trigger]
            encloses(frame, own) && anchors_box(right[id], frame, style);
        boxes_are_unique(one, other, own);
    }
}

/// Placing the anchors once more changes nothing.
pub proof fn placing_again_changes_nothing<S>(
    ids: Seq<u32>,
    before: Map<u32, InlineAnchor<S>>,
    once: Map<u32, InlineAnchor<S>>,
    twice: Map<u32, InlineAnchor<S>>,
    cells: Map<(u16, u16), CellContents>,
    rows: int,
    cols: int,
    style: S,
    first: bool,
    second: bool,
)
    requires
        placed(ids, before, once, cells, rows, cols, style, first),
        placed(ids, once, twice, cells, rows, cols, style, second),
    ensures
        !second,
        twice == once,
{
    assert forall|id: u32| #[trigger] ids.contains(id) implies {
        &&& twice.dom().contains(id) == once.dom().contains(id)
        &&& twice.dom().contains(id) ==> twice[id] == once[id]
    } by {
        lemma_anchored_once(once, twice, id, marks(cells, rows, cols, ids, id), style);
    }
    assert forall|id: u32| twice.dom().contains(id) == once.dom().contains(id) by {
        if !ids.contains(id) {
            assert(twice.dom().contains(id) <==> once.dom().contains(id));
        }
    }
    assert(twice =~= once);
}

/// Refreshing the anchors once more, with the same objects and the same screen,
/// changes nothing and tells of no change.
pub proof fn refreshing_again_changes_nothing<H, P, R, S>(
    objects: HashMap<u32, InlineObject<H, P, R>>,
    before: Map<u32, InlineAnchor<S>>,
    once: Map<u32, InlineAnchor<S>>,
    twice: Map<u32, InlineAnchor<S>>,
    cells: Map<(u16, u16), CellContents>,
    rows: int,
    cols: int,
    style: S,
    first: bool,
    second: bool,
)
    requires
        refreshed(objects, before, once, cells, rows, cols, style, first),
        refreshed(objects, once, twice, cells, rows, cols, style, second),
    ensures
        !second,
        twice == once,
{
    placing_again_changes_nothing(
        placeholder_order(objects),
        before,
        once,
        twice,
        cells,
        rows,
        cols,
        style,
        first,
        second,
    );
}

/// A refresh tells of a change exactly where some object was given a place, lost
/// it, or moved. Another style alone is no change.
pub proof fn refreshing_tells_of_changes<H, P, R, S>(
    objects: HashMap<u32, InlineObject<H, P, R>>,
    before: Map<u32, InlineAnchor<S>>,
    after: Map<u32, InlineAnchor<S>>,
    cells: Map<(u16, u16), CellContents>,
    rows: int,
    cols: int,
    style: S,
    changed: bool,
)
    requires
        refreshed(objects, before, after, cells, rows, cols, style, changed),
    ensures
        changed <==> exists|id: u32| #[trigger] place_changed(before, after, id),
{
    let ids = placeholder_order(objects);
    if exists|id: u32| #[trigger] place_changed(before, after, id) {
        let id = choose|id: u32| #[trigger] place_changed(before, after, id);
        if !ids.contains(id) {
            assert(after.dom().contains(id) <==> before.dom().contains(id));
        }
        assert(ids.contains(id));
    }
}

/// Whether no other object that is placed by placeholder cells has the color tag
/// of an object.
pub open spec fn lone_tag<H, P, R>(objects: Map<u32, InlineObject<H, P, R>>, id: u32) -> bool {
    forall|other: u32| #[trigger]
        uses_placeholders(objects, other) && color_tag(other) == color_tag(id) ==> other == id
}

proof fn lemma_owner_has_tag(ids: Seq<u32>, tag: u32)
    ensures
        owner(ids, tag) matches Some(id) ==> color_tag(id) == tag,
    decreases ids.len(),
{
    if ids.len() > 0 {
        lemma_owner_has_tag(ids.drop_last(), tag);
    }
}

proof fn lemma_lone_marks<H, P, R>(
    objects: Map<u32, InlineObject<H, P, R>>,
    ids: Seq<u32>,
    cells: Map<(u16, u16), CellContents>,
    rows: int,
    cols: int,
    id: u32,
)
    requires
        lists_placeholders(ids, objects),
        uses_placeholders(objects, id),
        lone_tag(objects, id),
    ensures
        marks(cells, rows, cols, ids, id) == Set::new(
            |at: (u16, u16)|
                at.0 < rows && at.1 < cols && cells.dom().contains(at) && cell_tag(cells[at])
                    == Some(color_tag(id)),
        ),
{
    assert(ids.contains(id));
    assert forall|i: int|
        0 <= i < ids.len() && color_tag(#[trigger] ids[i]) == color_tag(id) implies ids[i]
        == id by {
        assert(ids.contains(ids[i]));
        assert(uses_placeholders(objects, ids[i]));
    }
    lone_tags_have_one_owner(ids, id);
    assert forall|tag: u32| #[trigger] owner(ids, tag) == Some(id) implies tag
        == color_tag(id) by {
        lemma_owner_has_tag(ids, tag);
    }
    assert(marks(cells, rows, cols, ids, id) =~= Set::new(
        |at: (u16, u16)|
            at.0 < rows && at.1 < cols && cells.dom().contains(at) && cell_tag(cells[at]) == Some(
                color_tag(id),
            ),
    ));
}

/// An object whose color tag no other object has keeps its anchor over two
/// placements, even where the objects are listed in two different orders.
pub proof fn lone_tags_keep_their_place<H, P, R, S>(
    objects: Map<u32, InlineObject<H, P, R>>,
    left: Seq<u32>,
    right: Seq<u32>,
    before: Map<u32, InlineAnchor<S>>,
    once: Map<u32, InlineAnchor<S>>,
    twice: Map<u32, InlineAnchor<S>>,
    cells: Map<(u16, u16), CellContents>,
    rows: int,
    cols: int,
    style: S,
    first: bool,
    second: bool,
    id: u32,
)
    requires
        lists_placeholders(left, objects),
        lists_placeholders(right, objects),
        uses_placeholders(objects, id),
        lone_tag(objects, id),
        placed(left, before, once, cells, rows, cols, style, first),
        placed(right, once, twice, cells, rows, cols, style, second),
    ensures
        !place_changed(once, twice, id),
        twice.dom().contains(id) == once.dom().contains(id),
        twice.dom().contains(id) ==> twice[id] == once[id],
{
    assert(left.contains(id) && right.contains(id));
    lemma_lone_marks(objects, left, cells, rows, cols, id);
    lemma_lone_marks(objects, right, cells, rows, cols, id);
    lemma_anchored_once(once, twice, id, marks(cells, rows, cols, left, id), style);
}

/// A cell carries an identifier exactly where it starts with the placeholder
/// character and its foreground is given by components. Red is the highest byte of
/// the identifier, green the next one and blue the lowest.
pub proof fn placeholder_cells_carry_identifiers(
    text: Seq<char>,
    has_contents: bool,
    wide: bool,
    wide_continuation: bool,
    foreground: Color,
)
    ensures
        ({
            let tag = cell_tag((text, has_contents, wide, wide_continuation, foreground));
            &&& tag is Some <==> text.len() > 0 && text[0] == '\u{10EEEE}' && foreground is Rgb
            &&& tag matches Some(id) ==> (foreground matches Color::Rgb(r, g, b) ==> id < 0x100_0000
                && id / 0x10000 == r && id / 0x100 % 0x100 == g && id % 0x100 == b)
        }),
{
    if let Color::Rgb(r, g, b) = foreground {
        let id = (r * 0x10000 + g * 0x100 + b) as u32;
        assert(id / 0x10000 == r && id / 0x100 % 0x100 == g && id % 0x100 == b);
    }
}

/// The tag of an identifier is what is left of it modulo two to the power of 24.
pub proof fn tags_are_the_low_bits(id: u32)
    ensures
        color_tag(id) == id % 0x100_0000,
        id < 0x100_0000 ==> color_tag(id) == id,
{
    assert(id & 0x00ff_ffff == id % 0x100_0000) by (bit_vector);
}

/// Of several objects with one tag, the last one listed has the cells; an object
/// with another tag does not matter, and without objects nobody has them.
pub proof fn last_objects_own_their_tag(ids: Seq<u32>, id: u32, tag: u32)
    ensures
        owner(ids.push(id), color_tag(id)) == Some(id),
        color_tag(id) != tag ==> owner(ids.push(id), tag) == owner(ids, tag),
        owner(Seq::empty(), tag) is None,
{
    assert(ids.push(id).drop_last() =~= ids);
}

/// A Kitty image is placed by placeholder cells exactly where it asks for that; no
/// other object is.
pub proof fn images_ask_for_placeholders<H, P, R>(
    objects: Map<u32, InlineObject<H, P, R>>,
    id: u32,
    other: u32,
    object: InlineObject<H, P, R>,
)
    ensures
        ({
            let more = objects.insert(id, object);
            &&& object matches InlineObject::KittyImage(image) ==> uses_placeholders(more, id)
                == image.uses_placeholders
            &&& object is RgpObject ==> !uses_placeholders(more, id)
            &&& other != id ==> uses_placeholders(more, other) == uses_placeholders(objects, other)
            &&& !uses_placeholders(objects.remove(id), id)
        }),
{
}

/// An object whose tag no other object has owns exactly the cells of the screen
/// that carry its tag.
pub proof fn lone_objects_own_their_cells<H, P, R>(
    objects: Map<u32, InlineObject<H, P, R>>,
    ids: Seq<u32>,
    cells: Map<(u16, u16), CellContents>,
    rows: int,
    cols: int,
    id: u32,
    at: (u16, u16),
)
    requires
        lists_placeholders(ids, objects),
        uses_placeholders(objects, id),
        lone_tag(objects, id),
    ensures
        marks(cells, rows, cols, ids, id).contains(at) <==> {
            &&& at.0 < rows
            &&& at.1 < cols
            &&& cells.dom().contains(at)
            &&& cell_tag(cells[at]) == Some(color_tag(id))
        },
{
    lemma_lone_marks(objects, ids, cells, rows, cols, id);
}

/// Once placed, an object with cells is anchored around all of them, with a cell of
/// its own in its first and in its last row and column, and in the given style. An
/// object without cells is not anchored, and all other objects keep their anchors.
pub proof fn anchors_frame_their_cells<S>(
    ids: Seq<u32>,
    before: Map<u32, InlineAnchor<S>>,
    after: Map<u32, InlineAnchor<S>>,
    cells: Map<(u16, u16), CellContents>,
    rows: int,
    cols: int,
    style: S,
    changed: bool,
    id: u32,
    at: (u16, u16),
)
    requires
        placed(ids, before, after, cells, rows, cols, style, changed),
    ensures
        ({
            let own = marks(cells, rows, cols, ids, id);
            let anchor = after[id];
            &&& ids.contains(id) && own.contains(at) ==> {
                &&& after.dom().contains(id)
                &&& anchor.row <= at.0 < anchor.row + anchor.rows
                &&& anchor.col <= at.1 < anchor.col + anchor.columns
                &&& anchor.style == style
                &&& exists|cell: (u16, u16)| #[trigger] own.contains(cell) && cell.0 == anchor.row
                &&& exists|cell: (u16, u16)| #[trigger]
                    own.contains(cell) && cell.0 == anchor.row + anchor.rows - 1
                &&& exists|cell: (u16, u16)| #[trigger] own.contains(cell) && cell.1 == anchor.col
                &&& exists|cell: (u16, u16)| #[trigger]
                    own.contains(cell) && cell.1 == anchor.col + anchor.columns - 1
            }
            &&& ids.contains(id) && own == Set::<(u16, u16)>::empty() ==> !after.dom().contains(id)
            &&& !ids.contains(id) ==> after.dom().contains(id) == before.dom().contains(id)
            &&& !ids.contains(id) && before.dom().contains(id) ==> anchor == before[id]
        }),
{
    let own = marks(cells, rows, cols, ids, id);
    if ids.contains(id) && own.contains(at) {
        let frame = choose|frame: CellBox| #[trigger]
            encloses(frame, own) && anchors_box(after[id], frame, style);
        assert(anchored(after, id, own, style));
        assert(encloses(frame, own) && anchors_box(after[id], frame, style));
        let low = choose|cell: (u16, u16)| #[trigger] own.contains(cell) && cell.0 == frame.bottom;
        let right = choose|cell: (u16, u16)| #[trigger]
            own.contains(cell) && cell.1 == frame.right;
        assert(own.contains(low) && low.0 == after[id].row + after[id].rows - 1);
        assert(own.contains(right) && right.1 == after[id].col + after[id].columns - 1);
    }
    if ids.contains(id) && own == Set::<(u16, u16)>::empty() {
        assert(anchored(after, id, own, style));
    }
    if !ids.contains(id) {
        assert(after.dom().contains(id) <==> before.dom().contains(id));
    }
}

/// A placement tells of a change exactly where one of the listed objects is newly
/// anchored, no longer anchored, or anchored with another row, column, width or
/// height.
pub proof fn moved_anchors_are_changes<S>(
    before: Map<u32, InlineAnchor<S>>,
    after: Map<u32, InlineAnchor<S>>,
    id: u32,
)
    ensures
        before.dom().contains(id) != after.dom().contains(id) ==> place_changed(before, after, id),
        !before.dom().contains(id) && !after.dom().contains(id) ==> !place_changed(
            before,
            after,
            id,
        ),
        before.dom().contains(id) && after.dom().contains(id) ==> (place_changed(before, after, id)
            <==> before[id].row != after[id].row || before[id].col != after[id].col
            || before[id].columns != after[id].columns || before[id].rows != after[id].rows),
{
}

} // verus!
