//! Index buffers of generated meshes.

use std::collections::HashMap;

use vstd::prelude::*;
use vstd::std_specs::hash::*;

use crate::maps::keys_of;
use crate::sequences::lemma_push_holds;

verus! {

broadcast use group_hash_axioms;

/// The number of segments that a number of cells is cut into: at least two and
/// at most 24.
pub open spec fn segments(cells: u32) -> int {
    if cells < 2 {
        2
    } else if cells > 24 {
        24
    } else {
        cells as int
    }
}

/// Computes the number of segments that a number of cells is cut into.
pub fn segment_count(cells: u32) -> (n: u32)
    ensures
        n == segments(cells),
        2 <= n <= 24,
{
    if cells < 2 {
        2
    } else if cells > 24 {
        24
    } else {
        cells
    }
}

/// The two triangles of one cell of a grid of vertices with `width` cells in a
/// row.
pub open spec fn cell_triangles(width: int, x: int, y: int) -> Seq<int> {
    let top = y * (width + 1) + x;
    let bottom = (y + 1) * (width + 1) + x;
    seq![top, bottom, top + 1, top + 1, bottom, bottom + 1]
}

/// The triangles of the first cells of a grid, row by row.
pub open spec fn grid_triangles(width: int, count: int) -> Seq<int>
    decreases count,
{
    if count <= 0 || width <= 0 {
        Seq::empty()
    } else {
        grid_triangles(width, count - 1) + cell_triangles(
            width,
            (count - 1) % width,
            (count - 1) / width,
        )
    }
}

/// Numbers as indices.
pub open spec fn as_ints(indices: Seq<u32>) -> Seq<int> {
    indices.map_values(|index: u32| index as int)
}

/// Builds the index buffer of a grid with `width` by `height` cells.
pub fn grid_indices(width: u32, height: u32) -> (indices: Vec<u32>)
    requires
        0 < width <= 24,
        0 < height <= 24,
    ensures
        as_ints(indices@) == grid_triangles(width as int, width * height),
{
    let mut indices: Vec<u32> = Vec::new();
    let mut y: u32 = 0;
    assert(as_ints(indices@) =~= Seq::<int>::empty());
    assert(0 * width == 0) by (nonlinear_arith);
    while y < height
        invariant
            0 < width <= 24,
            y <= height <= 24,
            as_ints(indices@) == grid_triangles(width as int, y * width),
        decreases height - y,
    {
        let mut x: u32 = 0;
        while x < width
            invariant
                x <= width <= 24,
                0 < width,
                y < height <= 24,
                as_ints(indices@) == grid_triangles(width as int, y * width + x),
            decreases width - x,
        {
            assert(y * (width + 1) <= 24 * 25) by (nonlinear_arith)
                requires
                    y <= 24,
                    width <= 24,
            ;
            assert((y + 1) * (width + 1) <= 25 * 25) by (nonlinear_arith)
                requires
                    y <= 24,
                    width <= 24,
            ;
            let top: u32 = y * (width + 1) + x;
            let bottom: u32 = (y + 1) * (width + 1) + x;
            let ghost before = indices@;
            indices.push(top);
            indices.push(bottom);
            indices.push(top + 1);
            indices.push(top + 1);
            indices.push(bottom);
            indices.push(bottom + 1);
            proof {
                let count = y * width + x + 1;
                lemma_cell_position(width as int, x as int, y as int);
                assert(as_ints(indices@) =~= as_ints(before) + cell_triangles(
                    width as int,
                    x as int,
                    y as int,
                ));
                assert(grid_triangles(width as int, count) == grid_triangles(
                    width as int,
                    count - 1,
                ) + cell_triangles(width as int, x as int, y as int));
            }
            x = x + 1;
        }
        assert(y * width + width == (y + 1) * width) by (nonlinear_arith);
        y = y + 1;
    }
    assert(height * width == width * height) by (nonlinear_arith);
    indices
}

proof fn lemma_cell_position(width: int, x: int, y: int)
    requires
        0 <= x < width,
        0 <= y,
    ensures
        (y * width + x) % width == x,
        (y * width + x) / width == y,
        y * width >= 0,
{
    assert((y * width + x) % width == x && (y * width + x) / width == y && y * width >= 0)
        by (nonlinear_arith)
        requires
            0 <= x < width,
            0 <= y,
    ;
}

/// An unordered edge.
pub open spec fn edge(a: u32, b: u32) -> (u32, u32) {
    if a < b {
        (a, b)
    } else {
        (b, a)
    }
}

/// The edges of the first triangles of an index buffer.
pub open spec fn triangle_edges(indices: Seq<u32>, triangles: int) -> Seq<(u32, u32)>
    decreases triangles,
{
    if triangles <= 0 {
        Seq::empty()
    } else {
        let at = 3 * (triangles - 1);
        triangle_edges(indices, triangles - 1).push(edge(indices[at], indices[at + 1])).push(
            edge(indices[at + 1], indices[at + 2]),
        ).push(edge(indices[at + 2], indices[at]))
    }
}

/// The edges of all whole triangles of an index buffer.
pub open spec fn all_edges(indices: Seq<u32>) -> Seq<(u32, u32)> {
    triangle_edges(indices, indices.len() as int / 3)
}

/// How often an edge occurs.
pub open spec fn occurrences(edges: Seq<(u32, u32)>, wanted: (u32, u32)) -> nat
    decreases edges.len(),
{
    if edges.len() == 0 {
        0
    } else {
        occurrences(edges.drop_last(), wanted) + (if edges.last() == wanted {
            1nat
        } else {
            0nat
        })
    }
}

/// Whether a sequence lists the edges that belong to exactly one triangle, each
/// of them once.
pub open spec fn lists_boundary(edges: Seq<(u32, u32)>, indices: Seq<u32>) -> bool {
    &&& edges.no_duplicates()
    &&& forall|e: (u32, u32)| #[trigger]
        edges.contains(e) <==> occurrences(all_edges(indices), e) == 1
}

/// An edge as one number.
spec fn packed(e: (u32, u32)) -> u64 {
    (e.0 * 0x1_0000_0000 + e.1) as u64
}

spec fn unpacked(key: u64) -> (u32, u32) {
    ((key / 0x1_0000_0000) as u32, (key % 0x1_0000_0000) as u32)
}

proof fn lemma_packing(e: (u32, u32), key: u64)
    ensures
        unpacked(packed(e)) == e,
        packed(unpacked(key)) == key,
{
}

/// How often the edge of a key was counted.
spec fn counted(counts: Map<u64, u32>, key: u64) -> nat {
    if counts.dom().contains(key) {
        counts[key] as nat
    } else {
        0
    }
}

spec fn counts_hold(counts: Map<u64, u32>, edges: Seq<(u32, u32)>) -> bool {
    forall|key: u64| #[trigger] counted(counts, key) == occurrences(edges, unpacked(key))
}

proof fn lemma_occurrences_are_bounded(edges: Seq<(u32, u32)>, wanted: (u32, u32))
    ensures
        occurrences(edges, wanted) <= edges.len(),
    decreases edges.len(),
{
    if edges.len() > 0 {
        lemma_occurrences_are_bounded(edges.drop_last(), wanted);
    }
}

proof fn lemma_edge_count(indices: Seq<u32>, triangles: int)
    requires
        0 <= triangles,
    ensures
        triangle_edges(indices, triangles).len() == 3 * triangles,
    decreases triangles,
{
    if triangles > 0 {
        lemma_edge_count(indices, triangles - 1);
    }
}

/// Counts one more edge.
fn count_edge(
    counts: &mut HashMap<u64, u32>,
    a: u32,
    b: u32,
    Ghost(edges): Ghost<Seq<(u32, u32)>>,
)
    requires
        counts_hold(old(counts)@, edges),
        edges.len() < u32::MAX,
    ensures
        counts_hold(final(counts)@, edges.push(edge(a, b))),
{
    let (low, high) = if a < b {
        (a, b)
    } else {
        (b, a)
    };
    let key: u64 = low as u64 * 0x1_0000_0000 + high as u64;
    let ghost before = counts@;
    proof {
        lemma_packing((low, high), key);
        lemma_occurrences_are_bounded(edges, (low, high));
        assert(counted(before, key) == occurrences(edges, unpacked(key)));
    }
    let count: u32 = match counts.get(&key) {
        Some(count) => *count,
        None => 0,
    };
    counts.insert(key, count + 1);
    let ghost more = edges.push(edge(a, b));
    assert(more.drop_last() =~= edges);
    assert forall|other: u64| #[trigger] counted(counts@, other) == occurrences(
        more,
        unpacked(other),
    ) by {
        lemma_packing((low, high), other);
        assert(counted(before, other) == occurrences(edges, unpacked(other)));
    }
}

/// Finds the edges that belong to exactly one triangle, in no particular order.
pub fn boundary_edges(indices: &[u32]) -> (edges: Vec<(u32, u32)>)
    requires
        indices.len() <= u32::MAX,
    ensures
        lists_boundary(edges@, indices@),
{
    let mut counts: HashMap<u64, u32> = HashMap::new();
    let triangles: usize = indices.len() / 3;
    let mut t: usize = 0;
    while t < triangles
        invariant
            t <= triangles,
            triangles == indices.len() / 3,
            indices.len() <= u32::MAX,
            counts_hold(counts@, triangle_edges(indices@, t as int)),
        decreases triangles - t,
    {
        let at: usize = 3 * t;
        let ghost edges = triangle_edges(indices@, t as int);
        proof {
            lemma_edge_count(indices@, t as int);
        }
        count_edge(&mut counts, indices[at], indices[at + 1], Ghost(edges));
        let ghost one = edges.push(edge(indices[at as int], indices[at + 1]));
        count_edge(&mut counts, indices[at + 1], indices[at + 2], Ghost(one));
        let ghost two = one.push(edge(indices[at + 1], indices[at + 2]));
        count_edge(&mut counts, indices[at + 2], indices[at], Ghost(two));
        t = t + 1;
    }
    let ghost all = all_edges(indices@);
    let mut edges: Vec<(u32, u32)> = Vec::new();
    let keys = keys_of(&counts);
    let mut i: usize = 0;
    while i < keys.len()
        invariant
            i <= keys.len(),
            keys@.no_duplicates(),
            forall|key: u64| #[trigger] keys@.contains(key) <==> counts@.dom().contains(key),
            counts_hold(counts@, all),
            edges@.no_duplicates(),
            forall|e: (u32, u32)| #[trigger]
                edges@.contains(e) <==> keys@.take(i as int).contains(packed(e)) && occurrences(
                    all,
                    e,
                ) == 1,
        decreases keys.len() - i,
    {
        let key: u64 = keys[i];
        let ghost read = keys@.take(i as int);
        let ghost before = edges@;
        assert(keys@.take(i + 1) =~= read.push(key));
        assert(!read.contains(key));
        assert(counted(counts@, key) == occurrences(all, unpacked(key)));
        let once = match counts.get(&key) {
            Some(count) => *count == 1,
            None => false,
        };
        let e: (u32, u32) = ((key / 0x1_0000_0000) as u32, (key % 0x1_0000_0000) as u32);
        proof {
            lemma_packing(e, key);
        }
        if once {
            edges.push(e);
            assert forall|k: int| 0 <= k < before.len() implies before[k] != e by {
                assert(before.contains(before[k]));
            }
        }
        assert forall|other: (u32, u32)| #[trigger] edges@.contains(other) <==> keys@.take(
            i + 1,
        ).contains(packed(other)) && occurrences(all, other) == 1 by {
            lemma_packing(other, key);
            lemma_push_holds(before, e, other);
            lemma_push_holds(read, key, packed(other));
        }
        i = i + 1;
    }
    assert forall|e: (u32, u32)| #[trigger] edges@.contains(e) <==> occurrences(all, e) == 1 by {
        assert(keys@.take(keys.len() as int) =~= keys@);
        lemma_packing(e, packed(e));
        assert(counted(counts@, packed(e)) == occurrences(all, unpacked(packed(e))));
    }
    edges
}

/// The faces of an extruded mesh: each triangle on the front, and reversed on the
/// back, whose vertices follow those of the front.
pub open spec fn extruded_faces(indices: Seq<u32>, vertices: int, triangles: int) -> Seq<int>
    decreases triangles,
{
    if triangles <= 0 {
        Seq::empty()
    } else {
        let at = 3 * (triangles - 1);
        extruded_faces(indices, vertices, triangles - 1) + seq![
            indices[at] as int,
            indices[at + 1] as int,
            indices[at + 2] as int,
            indices[at + 2] + vertices,
            indices[at + 1] + vertices,
            indices[at] + vertices,
        ]
    }
}

/// The sides of an extruded mesh: two triangles on four vertices of their own for
/// each boundary edge.
pub open spec fn extruded_sides(first: int, edges: int) -> Seq<int>
    decreases edges,
{
    if edges <= 0 {
        Seq::empty()
    } else {
        let base = first + 4 * (edges - 1);
        extruded_sides(first, edges - 1) + seq![
            base,
            base + 1,
            base + 2,
            base,
            base + 2,
            base + 3,
        ]
    }
}

/// The index buffer of an extruded mesh.
pub open spec fn extruded(indices: Seq<u32>, vertices: int, edges: int) -> Seq<int> {
    extruded_faces(indices, vertices, indices.len() as int / 3) + extruded_sides(
        2 * vertices,
        edges,
    )
}

/// Builds the index buffer of an extruded mesh with a number of source vertices
/// and of boundary edges.
pub fn extruded_indices(indices: &[u32], vertices: u32, edges: u32) -> (out: Vec<u32>)
    requires
        forall|i: int|
            0 <= i < 3 * (indices.len() as int / 3) ==> #[trigger] indices[i] + vertices
                <= u32::MAX,
        2 * vertices + 4 * edges <= 0x1_0000_0000,
    ensures
        as_ints(out@) == extruded(indices@, vertices as int, edges as int),
{
    let mut out: Vec<u32> = Vec::new();
    let triangles: usize = indices.len() / 3;
    let mut t: usize = 0;
    assert(as_ints(out@) =~= Seq::<int>::empty());
    while t < triangles
        invariant
            t <= triangles,
            triangles == indices.len() / 3,
            forall|i: int|
                0 <= i < 3 * (indices.len() as int / 3) ==> #[trigger] indices[i] + vertices
                    <= u32::MAX,
            2 * vertices + 4 * edges <= 0x1_0000_0000,
            as_ints(out@) == extruded_faces(indices@, vertices as int, t as int),
        decreases triangles - t,
    {
        let at: usize = 3 * t;
        let ghost before = out@;
        out.push(indices[at]);
        out.push(indices[at + 1]);
        out.push(indices[at + 2]);
        out.push(indices[at + 2] + vertices);
        out.push(indices[at + 1] + vertices);
        out.push(indices[at] + vertices);
        assert(as_ints(out@) =~= as_ints(before) + seq![
            indices[at as int] as int,
            indices[at + 1] as int,
            indices[at + 2] as int,
            indices[at + 2] + vertices,
            indices[at + 1] + vertices,
            indices[at as int] + vertices,
        ]);
        t = t + 1;
    }
    let ghost faces = as_ints(out@);
    let mut k: u32 = 0;
    assert(faces + extruded_sides(2 * vertices, 0) =~= faces);
    while k < edges
        invariant
            k <= edges,
            2 * vertices + 4 * edges <= 0x1_0000_0000,
            as_ints(out@) == faces + extruded_sides(2 * vertices, k as int),
        decreases edges - k,
    {
        let base: u32 = 2 * vertices + 4 * k;
        let ghost before = out@;
        out.push(base);
        out.push(base + 1);
        out.push(base + 2);
        out.push(base);
        out.push(base + 2);
        out.push(base + 3);
        proof {
            let side = seq![
                base as int,
                base + 1,
                base + 2,
                base as int,
                base + 2,
                base + 3,
            ];
            let sides = extruded_sides(2 * vertices, k as int);
            assert(as_ints(out@) =~= as_ints(before) + side);
            assert(extruded_sides(2 * vertices, k + 1) == sides + side);
            assert(faces + (sides + side) =~= faces + sides + side);
        }
        k = k + 1;
    }
    out
}

/// The edges that belong to exactly one triangle.
pub open spec fn boundary(indices: Seq<u32>) -> Set<(u32, u32)> {
    Set::new(|e: (u32, u32)| occurrences(all_edges(indices), e) == 1)
}

/// What the extrusion of a flat mesh adds to its vertices.
pub struct Extrusion {
    /// The boundary edges. Each gets four vertices, after those of the front and
    /// the back.
    pub edges: Vec<(u32, u32)>,
    /// The index buffer.
    pub indices: Vec<u32>,
}

/// Whether an extrusion is that of a flat mesh with a number of vertices.
pub open spec fn extrudes(
    extrusion: Option<Extrusion>,
    indices: Seq<u32>,
    vertices: int,
) -> bool {
    match extrusion {
        Some(extrusion) => {
            &&& indices.len() >= 3
            &&& lists_boundary(extrusion.edges@, indices)
            &&& as_ints(extrusion.indices@) == extruded(
                indices,
                vertices,
                extrusion.edges.len() as int,
            )
        },
        None => indices.len() < 3,
    }
}

/// A mesh with a triangle is extruded, and one without is not. The extrusion lists
/// each boundary edge once, and has the indices of two faces and of a side for each
/// of these edges.
pub proof fn extrusions_follow_the_mesh(
    extrusion: Option<Extrusion>,
    indices: Seq<u32>,
    vertices: int,
    e: (u32, u32),
    i: int,
)
    requires
        extrudes(extrusion, indices, vertices),
    ensures
        extrusion is Some <==> indices.len() >= 3,
        extrusion matches Some(extrusion) ==> {
            let all = extruded(indices, vertices, extrusion.edges.len() as int);
            &&& extrusion.edges@.no_duplicates()
            &&& extrusion.edges@.contains(e) <==> boundary(indices).contains(e)
            &&& extrusion.indices.len() == all.len()
            &&& 0 <= i < all.len() ==> extrusion.indices@[i] == all[i]
        },
{
    if extrusion is Some {
        let listed = extrusion->0.edges@;
        assert(listed.contains(e) <==> occurrences(all_edges(indices), e) == 1);
        let numbers = extrusion->0.indices@;
        assert(as_ints(numbers).len() == numbers.len());
        if 0 <= i < numbers.len() {
            assert(as_ints(numbers)[i] == numbers[i]);
        }
    }
}

/// Extrudes a flat mesh with a number of vertices. Nothing is returned where the
/// mesh has no triangle.
pub fn extrude(indices: &[u32], vertices: u32) -> (extrusion: Option<Extrusion>)
    requires
        indices.len() <= u32::MAX,
        forall|i: int|
            0 <= i < 3 * (indices.len() as int / 3) ==> #[trigger] indices[i] + vertices
                <= u32::MAX,
        2 * vertices + 4 * boundary(indices@).len() <= 0x1_0000_0000,
    ensures
        match extrusion {
            Some(extrusion) => {
                &&& indices.len() >= 3
                &&& lists_boundary(extrusion.edges@, indices@)
                &&& as_ints(extrusion.indices@) == extruded(
                    indices@,
                    vertices as int,
                    extrusion.edges.len() as int,
                )
            },
            None => indices.len() < 3,
        },
        extrudes(extrusion, indices@, vertices as int),
{
    if indices.len() < 3 {
        return None;
    }
    let edges = boundary_edges(indices);
    proof {
        assert(edges@.to_set() =~= boundary(indices@)) by {
            assert forall|e: (u32, u32)| edges@.to_set().contains(e) == boundary(
                indices@,
            ).contains(e) by {
                assert(edges@.contains(e) <==> occurrences(all_edges(indices@), e) == 1);
            }
        }
        edges@.unique_seq_to_set();
    }
    let indices = extruded_indices(indices, vertices, edges.len() as u32);
    Some(Extrusion { edges, indices })
}

/// The index buffer of a list of triangles that share no vertices.
pub open spec fn separate(triangles: int) -> Seq<int> {
    Seq::new((3 * triangles) as nat, |i: int| i)
}

/// Each of the triangles that share no vertices has the three next ones.
pub proof fn separate_triangles_share_nothing(triangles: int, t: int)
    requires
        0 <= t < triangles,
    ensures
        separate(triangles).len() == 3 * triangles,
        separate(triangles).subrange(3 * t, 3 * t + 3) == seq![3 * t, 3 * t + 1, 3 * t + 2],
{
    assert(separate(triangles).subrange(3 * t, 3 * t + 3) =~= seq![3 * t, 3 * t + 1, 3 * t + 2]);
}

/// Builds the index buffer of a list of triangles that share no vertices.
pub fn separate_triangles(triangles: u32) -> (indices: Vec<u32>)
    requires
        3 * triangles <= u32::MAX,
    ensures
        indices.len() == 3 * triangles,
        forall|i: int| 0 <= i < indices.len() ==> #[trigger] indices[i] == i,
        as_ints(indices@) == separate(triangles as int),
{
    let mut indices: Vec<u32> = Vec::new();
    let mut i: u32 = 0;
    while i < 3 * triangles
        invariant
            3 * triangles <= u32::MAX,
            i <= 3 * triangles,
            indices.len() == i,
            forall|k: int| 0 <= k < i ==> #[trigger] indices[k] == k,
        decreases 3 * triangles - i,
    {
        indices.push(i);
        i = i + 1;
    }
    assert(as_ints(indices@) =~= separate(triangles as int));
    indices
}

/// The indices of an extruded mesh stay within its vertices: those of the front,
/// those of the back, and four for each boundary edge.
pub proof fn extruded_indices_are_in_range(indices: Seq<u32>, vertices: int, edges: int)
    requires
        forall|i: int|
            0 <= i < 3 * (indices.len() as int / 3) ==> #[trigger] indices[i] < vertices,
        0 <= vertices,
        0 <= edges,
    ensures
        extruded(indices, vertices, edges).len() == 6 * (indices.len() as int / 3) + 6 * edges,
        forall|i: int|
            0 <= i < extruded(indices, vertices, edges).len() ==> 0 <= #[trigger] extruded(
                indices,
                vertices,
                edges,
            )[i] < 2 * vertices + 4 * edges,
{
    lemma_faces_in_range(indices, vertices, indices.len() as int / 3);
    lemma_sides_in_range(2 * vertices, edges);
    let faces = extruded_faces(indices, vertices, indices.len() as int / 3);
    let sides = extruded_sides(2 * vertices, edges);
    assert forall|i: int| 0 <= i < (faces + sides).len() implies 0 <= #[trigger] (faces + sides)[i]
        < 2 * vertices + 4 * edges by {
        if i < faces.len() {
            assert((faces + sides)[i] == faces[i]);
        } else {
            assert((faces + sides)[i] == sides[i - faces.len()]);
        }
    }
}

proof fn lemma_faces_in_range(indices: Seq<u32>, vertices: int, triangles: int)
    requires
        forall|i: int| 0 <= i < 3 * triangles ==> #[trigger] indices[i] < vertices,
        0 <= 3 * triangles <= indices.len(),
    ensures
        extruded_faces(indices, vertices, triangles).len() == 6 * triangles,
        forall|i: int|
            0 <= i < 6 * triangles ==> 0 <= #[trigger] extruded_faces(
                indices,
                vertices,
                triangles,
            )[i] < 2 * vertices,
    decreases triangles,
{
    if triangles > 0 {
        lemma_faces_in_range(indices, vertices, triangles - 1);
        let before = extruded_faces(indices, vertices, triangles - 1);
        let at = 3 * (triangles - 1);
        assert(indices[at] < vertices && indices[at + 1] < vertices && indices[at + 2] < vertices);
        assert forall|i: int| 0 <= i < 6 * triangles implies 0 <= #[trigger] extruded_faces(
            indices,
            vertices,
            triangles,
        )[i] < 2 * vertices by {
            if i < before.len() {
                assert(extruded_faces(indices, vertices, triangles)[i] == before[i]);
            }
        }
    }
}

proof fn lemma_sides_in_range(first: int, edges: int)
    requires
        0 <= first,
        0 <= edges,
    ensures
        extruded_sides(first, edges).len() == 6 * edges,
        forall|i: int|
            0 <= i < 6 * edges ==> first <= #[trigger] extruded_sides(first, edges)[i] < first + 4
                * edges,
    decreases edges,
{
    if edges > 0 {
        lemma_sides_in_range(first, edges - 1);
        let before = extruded_sides(first, edges - 1);
        assert forall|i: int| 0 <= i < 6 * edges implies first <= #[trigger] extruded_sides(
            first,
            edges,
        )[i] < first + 4 * edges by {
            if i < before.len() {
                assert(extruded_sides(first, edges)[i] == before[i]);
            }
        }
    }
}

/// The indices of a grid stay within its vertices.
pub proof fn grid_indices_are_in_range(width: int, height: int, count: int)
    requires
        0 < width,
        0 < height,
        0 <= count <= width * height,
    ensures
        grid_triangles(width, count).len() == 6 * count,
        forall|i: int|
            0 <= i < 6 * count ==> 0 <= #[trigger] grid_triangles(width, count)[i] < (width + 1) * (
            height + 1),
    decreases count,
{
    if count > 0 {
        grid_indices_are_in_range(width, height, count - 1);
        let x = (count - 1) % width;
        let y = (count - 1) / width;
        assert(0 <= x < width && 0 <= y < height) by (nonlinear_arith)
            requires
                0 < width,
                0 < count <= width * height,
                x == (count - 1) % width,
                y == (count - 1) / width,
        ;
        let top = y * (width + 1) + x;
        let bottom = (y + 1) * (width + 1) + x;
        assert(0 <= top && bottom + 1 < (width + 1) * (height + 1) && top <= bottom)
            by (nonlinear_arith)
            requires
                0 <= x < width,
                0 <= y < height,
                top == y * (width + 1) + x,
                bottom == (y + 1) * (width + 1) + x,
        ;
        let before = grid_triangles(width, count - 1);
        assert forall|i: int| 0 <= i < 6 * count implies 0 <= #[trigger] grid_triangles(
            width,
            count,
        )[i] < (width + 1) * (height + 1) by {
            if i < before.len() {
                assert(grid_triangles(width, count)[i] == before[i]);
            }
        }
    }
}

/// Cells are cut into as many segments as there are, but for the bounds.
pub proof fn segments_follow_the_cells(cells: u32, more: u32)
    ensures
        2 <= segments(cells) <= 24,
        2 <= cells <= 24 ==> segments(cells) == cells,
        cells <= more ==> segments(cells) <= segments(more),
{
}

/// The triangles of a grid come cell by cell, those of a row from left to right and
/// the rows from top to bottom. The first triangle of a cell has its left top, its
/// left bottom and its right top corner, and the second its right top, its left
/// bottom and its right bottom corner; a row has one vertex more than cells.
pub proof fn grid_cells_have_two_triangles(width: int, height: int, x: int, y: int)
    requires
        0 <= x < width,
        0 <= y < height,
    ensures
        ({
            let cell = y * width + x;
            let corner = y * (width + 1) + x;
            grid_triangles(width, width * height).subrange(6 * cell, 6 * cell + 6) == seq![
                corner,
                corner + width + 1,
                corner + 1,
                corner + 1,
                corner + width + 1,
                corner + width + 2,
            ]
        }),
{
    let cell = y * width + x;
    lemma_cell_position(width, x, y);
    assert(cell < width * height) by (nonlinear_arith)
        requires
            0 <= x < width,
            0 <= y < height,
            cell == y * width + x,
    ;
    lemma_grid_cell(width, width * height, cell);
    assert((y + 1) * (width + 1) == y * (width + 1) + width + 1) by (nonlinear_arith);
}

proof fn lemma_grid_cell(width: int, count: int, cell: int)
    requires
        0 < width,
        0 <= cell < count,
    ensures
        grid_triangles(width, count).len() == 6 * count,
        grid_triangles(width, count).subrange(6 * cell, 6 * cell + 6) == cell_triangles(
            width,
            cell % width,
            cell / width,
        ),
    decreases count,
{
    let before = grid_triangles(width, count - 1);
    let last = cell_triangles(width, (count - 1) % width, (count - 1) / width);
    if count == 1 {
        assert(before =~= Seq::<int>::empty());
        assert((before + last).subrange(0, 6) =~= last);
    } else {
        if cell < count - 1 {
            lemma_grid_cell(width, count - 1, cell);
            assert((before + last).subrange(6 * cell, 6 * cell + 6) =~= before.subrange(
                6 * cell,
                6 * cell + 6,
            ));
        } else {
            lemma_grid_cell(width, count - 1, count - 2);
            assert((before + last).subrange(6 * cell, 6 * cell + 6) =~= last);
        }
    }
}

/// An edge holds its two ends, the smaller one first, in whichever order they were
/// given.
pub proof fn edges_are_unordered(a: u32, b: u32)
    ensures
        edge(a, b) == edge(b, a),
        edge(a, b).0 <= edge(a, b).1,
        (edge(a, b).0 == a && edge(a, b).1 == b) || (edge(a, b).0 == b && edge(a, b).1 == a),
{
}

/// Each whole triangle of an index buffer has three edges, one between each two of
/// its corners.
pub proof fn triangles_have_three_edges(indices: Seq<u32>, t: int)
    requires
        0 <= t < indices.len() as int / 3,
    ensures
        all_edges(indices).len() == 3 * (indices.len() as int / 3),
        all_edges(indices)[3 * t] == edge(indices[3 * t], indices[3 * t + 1]),
        all_edges(indices)[3 * t + 1] == edge(indices[3 * t + 1], indices[3 * t + 2]),
        all_edges(indices)[3 * t + 2] == edge(indices[3 * t + 2], indices[3 * t]),
{
    lemma_triangle_edges(indices, indices.len() as int / 3, t);
}

proof fn lemma_triangle_edges(indices: Seq<u32>, triangles: int, t: int)
    requires
        0 <= t < triangles,
    ensures
        triangle_edges(indices, triangles).len() == 3 * triangles,
        triangle_edges(indices, triangles)[3 * t] == edge(indices[3 * t], indices[3 * t + 1]),
        triangle_edges(indices, triangles)[3 * t + 1] == edge(
            indices[3 * t + 1],
            indices[3 * t + 2],
        ),
        triangle_edges(indices, triangles)[3 * t + 2] == edge(indices[3 * t + 2], indices[3 * t]),
    decreases triangles,
{
    lemma_edge_count(indices, triangles - 1);
    if t < triangles - 1 {
        lemma_triangle_edges(indices, triangles - 1, t);
    }
}

proof fn lemma_no_occurrence(edges: Seq<(u32, u32)>, wanted: (u32, u32))
    ensures
        occurrences(edges, wanted) == 0 <==> !edges.contains(wanted),
    decreases edges.len(),
{
    if edges.len() > 0 {
        lemma_no_occurrence(edges.drop_last(), wanted);
        assert(edges =~= edges.drop_last().push(edges.last()));
        lemma_push_holds(edges.drop_last(), edges.last(), wanted);
    }
}

/// An edge belongs to the boundary exactly where one place among the edges of the
/// triangles holds it and no other does.
pub proof fn boundary_edges_have_one_triangle(indices: Seq<u32>, e: (u32, u32))
    ensures
        boundary(indices).contains(e) <==> exists|k: int|
            0 <= k < all_edges(indices).len() && #[trigger] all_edges(indices)[k] == e && !all_edges(
                indices,
            ).take(k).contains(e) && !all_edges(indices).skip(k + 1).contains(e),
{
    let edges = all_edges(indices);
    if boundary(indices).contains(e) {
        let k = lemma_one_occurrence_is_held(edges, e);
        assert(edges[k] == e);
    }
    if exists|k: int|
        0 <= k < edges.len() && #[trigger] edges[k] == e && !edges.take(k).contains(e)
            && !edges.skip(k + 1).contains(e) {
        let k = choose|k: int|
            0 <= k < edges.len() && #[trigger] edges[k] == e && !edges.take(k).contains(e)
                && !edges.skip(k + 1).contains(e);
        lemma_held_is_one_occurrence(edges, e, k);
    }
}

/// Whether one place of a list of edges holds an edge and no other place does.
spec fn held_once(edges: Seq<(u32, u32)>, e: (u32, u32), k: int) -> bool {
    &&& 0 <= k < edges.len()
    &&& edges[k] == e
    &&& !edges.take(k).contains(e)
    &&& !edges.skip(k + 1).contains(e)
}

proof fn lemma_held_once_longer(edges: Seq<(u32, u32)>, e: (u32, u32), k: int)
    requires
        0 <= k < edges.len() - 1,
    ensures
        held_once(edges, e, k) <==> held_once(edges.drop_last(), e, k) && edges.last() != e,
{
    let before = edges.drop_last();
    assert(before.take(k) =~= edges.take(k));
    assert(edges.skip(k + 1) =~= before.skip(k + 1).push(edges.last()));
    lemma_push_holds(before.skip(k + 1), edges.last(), e);
}

proof fn lemma_held_once_last(edges: Seq<(u32, u32)>, e: (u32, u32))
    requires
        edges.len() > 0,
    ensures
        held_once(edges, e, edges.len() - 1) <==> edges.last() == e && !edges.drop_last().contains(
            e,
        ),
{
    let n = edges.len() - 1;
    assert(edges.take(n) =~= edges.drop_last());
    assert(edges.skip(n + 1) =~= Seq::<(u32, u32)>::empty());
}

proof fn lemma_one_occurrence_is_held(edges: Seq<(u32, u32)>, e: (u32, u32)) -> (k: int)
    requires
        occurrences(edges, e) == 1,
    ensures
        held_once(edges, e, k),
    decreases edges.len(),
{
    lemma_no_occurrence(edges.drop_last(), e);
    if edges.last() == e {
        lemma_held_once_last(edges, e);
        edges.len() - 1
    } else {
        let k = lemma_one_occurrence_is_held(edges.drop_last(), e);
        lemma_held_once_longer(edges, e, k);
        k
    }
}

proof fn lemma_held_is_one_occurrence(edges: Seq<(u32, u32)>, e: (u32, u32), k: int)
    requires
        held_once(edges, e, k),
    ensures
        occurrences(edges, e) == 1,
    decreases edges.len(),
{
    lemma_no_occurrence(edges.drop_last(), e);
    if k < edges.len() - 1 {
        lemma_held_once_longer(edges, e, k);
        lemma_held_is_one_occurrence(edges.drop_last(), e, k);
    } else {
        lemma_held_once_last(edges, e);
    }
}

/// An extruded mesh has each triangle of the flat one twice: as it was, and with its
/// corners in reverse among the vertices of the back. The two triangles of each
/// side follow, on four vertices behind those of the front and the back.
pub proof fn extruded_meshes_have_two_faces(
    indices: Seq<u32>,
    vertices: int,
    edges: int,
    t: int,
    k: int,
)
    requires
        0 <= t < indices.len() as int / 3,
        0 <= k < edges,
    ensures
        ({
            let out = extruded(indices, vertices, edges);
            let faces = 6 * (indices.len() as int / 3);
            let first = 2 * vertices + 4 * k;
            &&& out.len() == faces + 6 * edges
            &&& out.subrange(6 * t, 6 * t + 3) == seq![
                indices[3 * t] as int,
                indices[3 * t + 1] as int,
                indices[3 * t + 2] as int,
            ]
            &&& out.subrange(6 * t + 3, 6 * t + 6) == seq![
                indices[3 * t + 2] + vertices,
                indices[3 * t + 1] + vertices,
                indices[3 * t] + vertices,
            ]
            &&& out.subrange(faces + 6 * k, faces + 6 * k + 6) == seq![
                first,
                first + 1,
                first + 2,
                first,
                first + 2,
                first + 3,
            ]
        }),
{
    let n = indices.len() as int / 3;
    let faces = extruded_faces(indices, vertices, n);
    let sides = extruded_sides(2 * vertices, edges);
    let out = extruded(indices, vertices, edges);
    let first = 2 * vertices + 4 * k;
    lemma_face(indices, vertices, n, t);
    lemma_side(2 * vertices, edges, k);
    assert(out.subrange(6 * t, 6 * t + 3) =~= faces.subrange(6 * t, 6 * t + 6).take(3));
    assert(out.subrange(6 * t + 3, 6 * t + 6) =~= faces.subrange(6 * t, 6 * t + 6).skip(3));
    assert(out.subrange(6 * t, 6 * t + 3) =~= seq![
        indices[3 * t] as int,
        indices[3 * t + 1] as int,
        indices[3 * t + 2] as int,
    ]);
    assert(out.subrange(6 * t + 3, 6 * t + 6) =~= seq![
        indices[3 * t + 2] + vertices,
        indices[3 * t + 1] + vertices,
        indices[3 * t] + vertices,
    ]);
    assert(out.subrange(6 * n + 6 * k, 6 * n + 6 * k + 6) =~= sides.subrange(6 * k, 6 * k + 6));
}

proof fn lemma_face(indices: Seq<u32>, vertices: int, triangles: int, t: int)
    requires
        0 <= t < triangles,
    ensures
        extruded_faces(indices, vertices, triangles).len() == 6 * triangles,
        extruded_faces(indices, vertices, triangles).subrange(6 * t, 6 * t + 6) == seq![
            indices[3 * t] as int,
            indices[3 * t + 1] as int,
            indices[3 * t + 2] as int,
            indices[3 * t + 2] + vertices,
            indices[3 * t + 1] + vertices,
            indices[3 * t] + vertices,
        ],
    decreases triangles,
{
    let whole = extruded_faces(indices, vertices, triangles);
    let before = extruded_faces(indices, vertices, triangles - 1);
    if triangles == 1 {
        assert(before =~= Seq::<int>::empty());
    } else if t < triangles - 1 {
        lemma_face(indices, vertices, triangles - 1, t);
        assert(whole.subrange(6 * t, 6 * t + 6) =~= before.subrange(6 * t, 6 * t + 6));
    } else {
        lemma_face(indices, vertices, triangles - 1, triangles - 2);
    }
    if t == triangles - 1 {
        assert(whole.subrange(6 * t, 6 * t + 6) =~= seq![
            indices[3 * t] as int,
            indices[3 * t + 1] as int,
            indices[3 * t + 2] as int,
            indices[3 * t + 2] + vertices,
            indices[3 * t + 1] + vertices,
            indices[3 * t] + vertices,
        ]);
    }
}

proof fn lemma_side(first: int, edges: int, k: int)
    requires
        0 <= k < edges,
    ensures
        extruded_sides(first, edges).len() == 6 * edges,
        extruded_sides(first, edges).subrange(6 * k, 6 * k + 6) == seq![
            first + 4 * k,
            first + 4 * k + 1,
            first + 4 * k + 2,
            first + 4 * k,
            first + 4 * k + 2,
            first + 4 * k + 3,
        ],
    decreases edges,
{
    let whole = extruded_sides(first, edges);
    let before = extruded_sides(first, edges - 1);
    if edges == 1 {
        assert(before =~= Seq::<int>::empty());
    } else if k < edges - 1 {
        lemma_side(first, edges - 1, k);
        assert(whole.subrange(6 * k, 6 * k + 6) =~= before.subrange(6 * k, 6 * k + 6));
    } else {
        lemma_side(first, edges - 1, edges - 2);
    }
    if k == edges - 1 {
        assert(whole.subrange(6 * k, 6 * k + 6) =~= seq![
            first + 4 * k,
            first + 4 * k + 1,
            first + 4 * k + 2,
            first + 4 * k,
            first + 4 * k + 2,
            first + 4 * k + 3,
        ]);
    }
}

/// A list of the boundary holds each boundary edge once, and nothing else.
pub proof fn boundaries_are_listed_once(edges: Seq<(u32, u32)>, indices: Seq<u32>)
    ensures
        lists_boundary(edges, indices) <==> edges.no_duplicates() && edges.to_set() == boundary(
            indices,
        ),
{
    let listed = edges.to_set();
    let wanted = boundary(indices);
    if lists_boundary(edges, indices) {
        assert forall|e: (u32, u32)| listed.contains(e) == wanted.contains(e) by {
            assert(edges.contains(e) <==> occurrences(all_edges(indices), e) == 1);
        }
        assert(listed =~= wanted);
    }
    if edges.no_duplicates() && listed == wanted {
        assert forall|e: (u32, u32)| #[trigger] edges.contains(e) <==> occurrences(
            all_edges(indices),
            e,
        ) == 1 by {
            assert(listed.contains(e) == wanted.contains(e));
        }
    }
}

} // verus!
