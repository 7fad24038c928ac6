use fibonacci_sphere::terrain::indices::{
    classify_border_between_terrain_types, is_coastline_between_terrain_types, is_coastline_edge,
    parse_allowed_terrain_types, terrain_type_index_at,
};
use fibonacci_sphere::terrain::{TerrainMap, TerrainType};

#[test]
fn border_between_terrain_indices() {
    // Land (0) against Water (1) is a coastline (1).
    assert_eq!(classify_border_between_terrain_types(0, 1), 1);
    // Water (1) against DeepWater (2) is shallow/deep water (2).
    assert_eq!(classify_border_between_terrain_types(1, 2), 2);
    // Land (0) against Mountain (3) is land/mountain (3).
    assert_eq!(classify_border_between_terrain_types(0, 3), 3);
    assert_eq!(classify_border_between_terrain_types(4, 4), 0);
    assert_eq!(classify_border_between_terrain_types(6, 0), -1);
    assert_eq!(classify_border_between_terrain_types(0, -1), -1);
}

#[test]
fn coastline_between_terrain_indices() {
    assert!(is_coastline_between_terrain_types(3, 2));
    assert!(is_coastline_between_terrain_types(1, 5));
    assert!(!is_coastline_between_terrain_types(0, 3));
    assert!(!is_coastline_between_terrain_types(1, 2));
    assert!(!is_coastline_between_terrain_types(9, 1));
}

#[test]
fn allowed_terrain_indices_skip_unknown_values() {
    assert_eq!(
        parse_allowed_terrain_types(&[3, -1, 0, 7, 3]),
        vec![TerrainType::Mountain, TerrainType::Land, TerrainType::Mountain]
    );
    assert!(parse_allowed_terrain_types(&[]).is_empty());
}

#[test]
fn coastline_edge_checks_the_index() {
    let kinds = [0, 1, 2, 1];
    assert!(is_coastline_edge(&kinds, 1));
    assert!(is_coastline_edge(&kinds, 3));
    assert!(!is_coastline_edge(&kinds, 0));
    assert!(!is_coastline_edge(&kinds, 4));
    assert!(!is_coastline_edge(&kinds, -2));
}

#[test]
fn terrain_index_at_vertex() {
    let map = TerrainMap::new(vec![TerrainType::Ice, TerrainType::DeepWater]);
    assert_eq!(terrain_type_index_at(Some(&map), 0), 4);
    assert_eq!(terrain_type_index_at(Some(&map), 1), 2);
    assert_eq!(terrain_type_index_at(Some(&map), 2), -1);
    assert_eq!(terrain_type_index_at(Some(&map), -1), -1);
    assert_eq!(terrain_type_index_at(None, 0), -1);
}
