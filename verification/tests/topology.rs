use fibonacci_sphere::error::{validate_point_count, validate_vertex_index};
use fibonacci_sphere::terrain::TerrainType;
use fibonacci_sphere::topology::delaunay::{
    cavity_boundary, discard_scaffold_faces, flagged_indices, insert_into_triangulation,
    push_fan, remove_cavity,
};
use fibonacci_sphere::topology::dual::interior_edge_faces;
use fibonacci_sphere::topology::route::{
    plan_surface_route, predecessors_reach, reconstruct_path, vertex_terrain_allowed, RoutePlan,
};
use fibonacci_sphere::topology::spherical::{
    assemble_projected_mesh, fallback_edges, insert_edge, map_triangles, normalized_pair,
    push_triangle, undirected_edges_from_triangles,
};
use fibonacci_sphere::topology::voronoi::{
    boundary_neighbors_for_faces, neighbor_across_faces, neighbors_of_vertex_in_face,
    opposite_face_across_edge, order_faces_by_adjacency, vertex_face_incidence,
};
use fibonacci_sphere::topology::{SphericalMesh, SurfaceGraph};
use fibonacci_sphere::SphereError;

/// Octahedron: 0 = +y, 1 = +x, 2 = +z, 3 = -x, 4 = -z, 5 = -y.
fn octahedron() -> SphericalMesh {
    let triangles = vec![
        [0, 2, 1],
        [0, 3, 2],
        [0, 4, 3],
        [0, 1, 4],
        [5, 1, 2],
        [5, 2, 3],
        [5, 3, 4],
        [5, 4, 1],
    ];
    let edges = undirected_edges_from_triangles(&triangles, &[0, 1, 2, 3, 4, 5]);
    SphericalMesh::new(triangles, edges)
}

#[test]
fn errors_name_the_rejected_input() {
    assert_eq!(validate_point_count(0), Err(SphereError::InvalidPointCount { n: 0 }));
    assert_eq!(validate_point_count(1), Ok(()));
    assert_eq!(
        validate_vertex_index(5, 3),
        Err(SphereError::InvalidVertexIndex { index: 5, count: 3 })
    );
    assert_eq!(
        validate_vertex_index(3, 3),
        Err(SphereError::InvalidVertexIndex { index: 3, count: 3 })
    );
    assert_eq!(validate_vertex_index(2, 3), Ok(()));
}

#[test]
fn graph_from_edges_is_symmetric() {
    let weights = [10u64, 20, 30];
    let graph = SurfaceGraph::from_edge_weights(4, &[[0, 1], [1, 2], [2, 0]], &weights);
    assert_eq!(graph.len(), 4);
    assert!(!graph.is_empty());
    assert_eq!(graph.neighbors(0), &[(1, 10), (2, 30)]);
    assert_eq!(graph.neighbors(1), &[(0, 10), (2, 20)]);
    assert_eq!(graph.neighbors(2), &[(1, 20), (0, 30)]);
    assert!(graph.neighbors(3).is_empty());
    assert!(SurfaceGraph::from_adjacency(Vec::new()).is_empty());
}

#[test]
fn normalized_pairs_put_the_smaller_index_first() {
    assert_eq!(normalized_pair(4, 1), (1, 4));
    assert_eq!(normalized_pair(1, 4), (1, 4));
    assert_eq!(normalized_pair(2, 2), (2, 2));
}

#[test]
fn fallback_edges_chain_the_points() {
    assert!(fallback_edges(0).is_empty());
    assert!(fallback_edges(1).is_empty());
    assert_eq!(fallback_edges(4), vec![[0, 1], [1, 2], [2, 3]]);
}

#[test]
fn planar_faces_map_to_sphere_vertices() {
    let mapped = map_triangles(&[[0, 1, 2], [2, 1, 3]], &[7, 4, 9, 1]);
    assert_eq!(mapped, vec![[7, 4, 9], [9, 4, 1]]);
}

#[test]
fn wireframe_keeps_each_undirected_side_once() {
    let edges = undirected_edges_from_triangles(&[[0, 1, 2], [2, 1, 3]], &[0, 1, 2, 3]);
    assert_eq!(edges, vec![[0, 1], [1, 2], [0, 2], [1, 3], [2, 3]]);
    assert_eq!(octahedron().edges.len(), 12);
}

#[test]
fn push_triangle_skips_repeated_faces() {
    let mut triangles = vec![[0, 1, 2]];
    push_triangle(&mut triangles, [2, 0, 1]);
    assert_eq!(triangles, vec![[0, 1, 2]]);
    push_triangle(&mut triangles, [0, 1, 3]);
    assert_eq!(triangles, vec![[0, 1, 2], [0, 1, 3]]);
}

#[test]
fn insert_edge_skips_loops_and_repeats() {
    let mut edges = vec![[1, 3]];
    insert_edge(&mut edges, 3, 1);
    insert_edge(&mut edges, 2, 2);
    insert_edge(&mut edges, 5, 0);
    assert_eq!(edges, vec![[1, 3], [0, 5]]);
}

#[test]
fn projected_mesh_without_hub_keeps_planar_faces() {
    let mesh = assemble_projected_mesh(&[[0, 1, 2]], &[3, 5, 4], None, &[]);
    assert_eq!(mesh.triangles, vec![[3, 5, 4]]);
    assert_eq!(mesh.edges, vec![[3, 5], [4, 5], [3, 4]]);
}

#[test]
fn hub_is_fanned_around_the_hull() {
    // Planar square 0..4 around the origin; the hub (vertex 4) was left out of the plane.
    let planar = [[0, 1, 2], [0, 2, 3]];
    let index_map = [0, 1, 2, 3];
    let hull = [0, 1, 2, 3];
    let mesh = assemble_projected_mesh(&planar, &index_map, Some(4), &hull);
    assert_eq!(
        mesh.triangles,
        vec![[0, 1, 2], [0, 2, 3], [4, 0, 1], [4, 1, 2], [4, 2, 3], [4, 3, 0]]
    );
    assert_eq!(mesh.edges.len(), 9);
    for vertex in 0..4 {
        assert!(mesh.edges.contains(&[vertex, 4]));
    }
    for edge in &mesh.edges {
        assert!(edge[0] < edge[1]);
        assert!(mesh.triangles.iter().any(|face| face.contains(&edge[0]) && face.contains(&edge[1])));
    }
}

#[test]
fn incidence_lists_faces_in_index_order() {
    let mesh = octahedron();
    let incident = vertex_face_incidence(&mesh, 6);
    assert_eq!(incident[0], vec![0, 1, 2, 3]);
    assert_eq!(incident[1], vec![0, 3, 4, 7]);
    assert_eq!(incident[5], vec![4, 5, 6, 7]);
}

#[test]
fn corners_follow_the_face_winding() {
    let mesh = octahedron();
    assert_eq!(neighbors_of_vertex_in_face(0, 0, &mesh), Some((2, 1)));
    assert_eq!(neighbors_of_vertex_in_face(0, 2, &mesh), Some((1, 0)));
    assert_eq!(neighbors_of_vertex_in_face(0, 1, &mesh), Some((0, 2)));
    assert_eq!(neighbors_of_vertex_in_face(0, 5, &mesh), None);
    assert_eq!(opposite_face_across_edge(&[0, 1, 2, 3], (0, 1), 0, &mesh), Some(3));
    assert_eq!(opposite_face_across_edge(&[0, 1, 2, 3], (1, 5), 0, &mesh), None);
    assert_eq!(neighbor_across_faces(0, 0, 3, &mesh), Some(1));
    assert_eq!(neighbor_across_faces(0, 0, 2, &mesh), None);
}

#[test]
fn octahedron_faces_are_ordered_around_each_vertex() {
    let mesh = octahedron();
    let incident = vertex_face_incidence(&mesh, 6);
    let ordered = order_faces_by_adjacency(0, &incident[0], &mesh).unwrap();
    assert_eq!(ordered, vec![0, 3, 2, 1]);
    let neighbors = boundary_neighbors_for_faces(0, &ordered, &mesh);
    assert_eq!(neighbors, vec![1, 4, 3, 2]);
    for site in 0..6 {
        let ordered = order_faces_by_adjacency(site, &incident[site], &mesh).unwrap();
        assert_eq!(ordered.len(), 4);
        let neighbors = boundary_neighbors_for_faces(site, &ordered, &mesh);
        assert_eq!(neighbors.len(), 4);
        assert!(!neighbors.contains(&site));
    }
}

#[test]
fn broken_fans_are_not_ordered() {
    let mesh = SphericalMesh::new(vec![[0, 1, 2], [0, 3, 4]], Vec::new());
    assert_eq!(order_faces_by_adjacency(0, &[0, 1], &mesh), None);
    assert_eq!(order_faces_by_adjacency(0, &[1], &mesh), Some(vec![1]));
    assert!(boundary_neighbors_for_faces(0, &[1], &mesh).is_empty());
}

#[test]
fn cavity_boundary_cancels_shared_sides() {
    let triangles = [[0, 1, 2], [2, 1, 3], [4, 5, 6]];
    let boundary = cavity_boundary(&triangles, &[0, 1]);
    assert_eq!(boundary, vec![(0, 1), (2, 0), (1, 3), (3, 2)]);
    assert!(cavity_boundary(&triangles, &[]).is_empty());
}

#[test]
fn flagged_faces_are_listed_in_ascending_order() {
    assert_eq!(flagged_indices(&[true, false, true, true]), vec![0, 2, 3]);
    assert!(flagged_indices(&[false, false]).is_empty());
}

#[test]
fn cavity_removal_swaps_from_the_back() {
    let mut triangles = vec![[0, 0, 0], [1, 1, 1], [2, 2, 2], [3, 3, 3], [4, 4, 4]];
    remove_cavity(&mut triangles, &[0, 3]);
    assert_eq!(triangles, vec![[4, 4, 4], [1, 1, 1], [2, 2, 2]]);
    push_fan(&mut triangles, &[(7, 8), (8, 9)], 6);
    assert_eq!(triangles, vec![[4, 4, 4], [1, 1, 1], [2, 2, 2], [7, 8, 6], [8, 9, 6]]);
}

#[test]
fn bowyer_watson_steps_fan_the_cavity() {
    // Three points 0, 1, 2 inside the scaffold triangle 3, 4, 5.
    let mut triangles = vec![[3, 4, 5]];
    insert_into_triangulation(&mut triangles, &[true], 0);
    assert_eq!(triangles, vec![[3, 4, 0], [4, 5, 0], [5, 3, 0]]);
    insert_into_triangulation(&mut triangles, &[true, false, true], 1);
    assert_eq!(
        triangles,
        vec![[4, 5, 0], [3, 4, 1], [4, 0, 1], [5, 3, 1], [0, 5, 1]]
    );
    let before = triangles.len();
    insert_into_triangulation(&mut triangles, &[false; 5], 2);
    assert_eq!(triangles.len(), before);
}

#[test]
fn scaffold_faces_are_discarded() {
    let kept = discard_scaffold_faces(&[[0, 1, 2], [0, 1, 3], [2, 1, 0], [4, 0, 1]], 3);
    assert_eq!(kept, vec![[0, 1, 2], [2, 1, 0]]);
}

#[test]
fn route_plan_rejects_out_of_range_endpoints() {
    assert_eq!(
        plan_surface_route(0, 9, 5, &[], &[]),
        Err(SphereError::InvalidVertexIndex { index: 9, count: 5 })
    );
    assert_eq!(
        plan_surface_route(7, 9, 5, &[], &[]),
        Err(SphereError::InvalidVertexIndex { index: 7, count: 5 })
    );
}

#[test]
fn route_plan_for_equal_endpoints_is_a_single_vertex() {
    assert_eq!(plan_surface_route(2, 2, 5, &[], &[]), Ok(RoutePlan::SingleVertex));
    let terrain = [TerrainType::Water; 5];
    assert_eq!(
        plan_surface_route(2, 2, 5, &terrain, &[TerrainType::Water]),
        Ok(RoutePlan::SingleVertex)
    );
    assert_eq!(
        plan_surface_route(2, 2, 5, &terrain, &[TerrainType::Land]),
        Err(SphereError::NoSurfacePath { from: 2, to: 2 })
    );
}

#[test]
fn route_plan_rejects_disallowed_endpoint_terrain() {
    let terrain = [TerrainType::Land, TerrainType::Water, TerrainType::Land];
    let allowed = [TerrainType::Land];
    assert_eq!(
        plan_surface_route(0, 1, 3, &terrain, &allowed),
        Err(SphereError::NoSurfacePath { from: 0, to: 1 })
    );
    assert_eq!(
        plan_surface_route(1, 2, 3, &terrain, &allowed),
        Err(SphereError::NoSurfacePath { from: 1, to: 2 })
    );
    assert_eq!(plan_surface_route(0, 2, 3, &terrain, &allowed), Ok(RoutePlan::Filtered));
    assert!(vertex_terrain_allowed(2, &terrain, &allowed));
    assert!(!vertex_terrain_allowed(1, &terrain, &allowed));
}

#[test]
fn route_plan_without_filter_searches_everything() {
    let terrain = [TerrainType::Land, TerrainType::Water, TerrainType::Land];
    assert_eq!(plan_surface_route(0, 1, 3, &terrain, &[]), Ok(RoutePlan::Unfiltered));
    assert_eq!(plan_surface_route(0, 1, 3, &[], &[TerrainType::Land]), Ok(RoutePlan::Unfiltered));
    assert_eq!(plan_surface_route(0, 1, 3, &[], &[]), Ok(RoutePlan::Unfiltered));
}

#[test]
fn predecessor_links_give_the_path_back() {
    let came_from = [None, Some(0), Some(1), Some(1), Some(3)];
    assert!(predecessors_reach(0, 4, &came_from));
    assert_eq!(reconstruct_path(0, 4, &came_from), vec![0, 1, 3, 4]);
    assert_eq!(reconstruct_path(1, 2, &came_from), vec![1, 2]);
    assert_eq!(reconstruct_path(3, 3, &came_from), vec![3]);
    assert!(!predecessors_reach(2, 4, &came_from));
    assert!(!predecessors_reach(0, 9, &came_from));
    let looping = [Some(1), Some(0), None];
    assert!(!predecessors_reach(2, 0, &looping));
}

#[test]
fn octahedron_dual_edges_follow_vertex_pairs() {
    let mesh = octahedron();
    let dual = interior_edge_faces(&mesh, 6);
    assert_eq!(dual.len(), mesh.edges.len());
    assert_eq!(dual[0], ((0, 1), (0, 3)));
    assert_eq!(dual[1], ((0, 2), (0, 1)));
    assert_eq!(dual[11], ((4, 5), (6, 7)));
    for pair in dual.windows(2) {
        assert!(pair[0].0 < pair[1].0);
    }
}

#[test]
fn open_mesh_has_one_dual_edge() {
    let mesh = SphericalMesh::new(vec![[0, 1, 2], [2, 1, 3]], Vec::new());
    assert_eq!(interior_edge_faces(&mesh, 4), vec![((1, 2), (0, 1))]);
    let empty = SphericalMesh::new(Vec::new(), Vec::new());
    assert!(interior_edge_faces(&empty, 3).is_empty());
}
