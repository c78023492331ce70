use ratty::mesh::{
    boundary_edges, extrude, extruded_indices, grid_indices, segment_count, separate_triangles,
};

#[test]
fn segments_are_limited() {
    assert_eq!(segment_count(0), 2);
    assert_eq!(segment_count(2), 2);
    assert_eq!(segment_count(17), 17);
    assert_eq!(segment_count(90), 24);
}

#[test]
fn grids_are_made_of_two_triangles_per_cell() {
    assert_eq!(
        grid_indices(2, 1),
        vec![0, 3, 1, 1, 3, 4, 1, 4, 2, 2, 4, 5]
    );
    let indices = grid_indices(24, 24);
    assert_eq!(indices.len(), 6 * 24 * 24);
    assert_eq!(indices.iter().max(), Some(&(25 * 25 - 1)));
}

#[test]
fn boundary_edges_belong_to_one_triangle() {
    let mut edges = boundary_edges(&[0, 1, 2, 2, 1, 3]);
    edges.sort();
    assert_eq!(edges, vec![(0, 1), (0, 2), (1, 3), (2, 3)]);
    assert!(boundary_edges(&[0, 1]).is_empty());
    let mut closed = boundary_edges(&[0, 1, 2, 0, 2, 1]);
    closed.sort();
    assert!(closed.is_empty());
}

#[test]
fn extrusions_have_two_faces_and_sides() {
    assert_eq!(
        extruded_indices(&[0, 1, 2, 7], 3, 1),
        vec![0, 1, 2, 5, 4, 3, 6, 7, 8, 6, 8, 9]
    );
    let extrusion = extrude(&[0, 1, 2], 3).unwrap();
    assert_eq!(extrusion.edges.len(), 3);
    assert_eq!(extrusion.indices.len(), 6 + 18);
    assert_eq!(&extrusion.indices[..6], &[0, 1, 2, 5, 4, 3]);
    assert_eq!(&extrusion.indices[18..], &[14, 15, 16, 14, 16, 17]);
    assert!(extrude(&[0, 1], 3).is_none());
}

#[test]
fn separate_triangles_are_numbered_in_order() {
    assert_eq!(separate_triangles(2), vec![0, 1, 2, 3, 4, 5]);
    assert!(separate_triangles(0).is_empty());
}

#[test]
fn indices_behind_the_last_triangle_are_left_out() {
    let whole = extrude(&[0, 1, 2], 3).unwrap();
    let trailing = extrude(&[0, 1, 2, u32::MAX, u32::MAX], 3).unwrap();
    assert_eq!(trailing.indices, whole.indices);
    assert_eq!(trailing.edges.len(), whole.edges.len());
}
