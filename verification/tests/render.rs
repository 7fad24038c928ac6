use fibonacci_sphere::render::{
    append_offset_triangles, append_quad_indices, fan_triangle_indices, split_boundary_neighbor,
};

#[test]
fn fan_layout_pairs_each_segment_with_the_apex() {
    assert_eq!(
        fan_triangle_indices(4, false),
        vec![[0, 1, 2], [0, 3, 4], [0, 5, 6], [0, 7, 8]]
    );
    assert_eq!(fan_triangle_indices(2, true), vec![[0, 2, 1], [0, 4, 3]]);
    assert!(fan_triangle_indices(0, false).is_empty());
}

#[test]
fn combined_mesh_indices_are_offset_by_the_base() {
    let mut indices = vec![9u32];
    append_offset_triangles(&mut indices, &[[0, 1, 2], [0, 3, 4]], 10);
    assert_eq!(indices, vec![9, 10, 11, 12, 10, 13, 14]);
}

#[test]
fn ribbon_quads_use_four_consecutive_vertices() {
    let mut indices = Vec::new();
    append_quad_indices(&mut indices, 0);
    append_quad_indices(&mut indices, 4);
    assert_eq!(indices, vec![0, 1, 2, 0, 2, 3, 4, 5, 6, 4, 6, 7]);
}

#[test]
fn pole_insertion_duplicates_the_split_neighbor() {
    let mut neighbors = vec![7, 8, 9];
    split_boundary_neighbor(&mut neighbors, 1);
    assert_eq!(neighbors, vec![7, 8, 8, 9]);
    split_boundary_neighbor(&mut neighbors, 3);
    assert_eq!(neighbors, vec![7, 8, 8, 9, 9]);
}
