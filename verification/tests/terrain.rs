use fibonacci_sphere::terrain::areas::TerrainArea;
use fibonacci_sphere::terrain::polar::apply_cap_membership;
use fibonacci_sphere::terrain::polygons::{coastline_edges, edge_border_kinds, PolygonBorders};
use fibonacci_sphere::terrain::rng::{
    choose_item, index_from_draw, item_from_draw, random_index, random_terrain, seed_from_godot,
    shuffle, shuffle_step, shuffle_with_draws, terrain_from_draw,
};
use fibonacci_sphere::terrain::{
    area_border_edges, build_voronoi_areas, classify_area_border, classify_site,
    is_coastline_border, terrain_rng_from_godot_seed, terrain_rng_from_seed,
    AdjacentTypeReassigner, AreaBorderKind, AreaKind, BandPreservingReassigner, ClusterAssigner,
    ElevationBand, RandomAssigner, TerrainMap, TerrainReassigner, TerrainType,
};
use fibonacci_sphere::topology::{SphericalMesh, SurfaceGraph};
use rand::rngs::StdRng;
use rand::SeedableRng;

fn unit_weight() -> u64 {
    1.0f64.to_bits()
}

fn triangle_graph() -> SurfaceGraph {
    SurfaceGraph::from_adjacency(vec![
        vec![(1, unit_weight()), (2, unit_weight())],
        vec![(0, unit_weight()), (2, unit_weight())],
        vec![(0, unit_weight()), (1, unit_weight())],
    ])
}

fn linear_graph(count: usize) -> SurfaceGraph {
    let mut adjacency = vec![Vec::new(); count];
    for index in 0..count.saturating_sub(1) {
        adjacency[index].push((index + 1, unit_weight()));
        adjacency[index + 1].push((index, unit_weight()));
    }
    SurfaceGraph::from_adjacency(adjacency)
}

#[test]
fn classify_site_matches_terrain_type() {
    assert_eq!(classify_site(TerrainType::Water), AreaKind::Water);
    assert_eq!(classify_site(TerrainType::DeepWater), AreaKind::DeepWater);
    assert_eq!(classify_site(TerrainType::Land), AreaKind::Land);
    assert_eq!(classify_site(TerrainType::Mountain), AreaKind::Mountain);
    assert_eq!(classify_site(TerrainType::Ice), AreaKind::Ice);
    assert_eq!(classify_site(TerrainType::IceMountain), AreaKind::IceMountain);
}

#[test]
fn area_kind_maps_back_to_its_terrain_type() {
    for terrain_type in TerrainType::ALL {
        assert_eq!(classify_site(terrain_type).terrain_type(), terrain_type);
    }
}

#[test]
fn coastline_crosses_sea_level() {
    assert_eq!(
        classify_area_border(AreaKind::Land, AreaKind::Water),
        AreaBorderKind::Coastline
    );
    assert!(is_coastline_border(AreaKind::Mountain, AreaKind::DeepWater));
}

#[test]
fn mountain_water_is_coastline() {
    assert_eq!(
        classify_area_border(AreaKind::Mountain, AreaKind::Water),
        AreaBorderKind::Coastline
    );
    assert_eq!(
        classify_area_border(AreaKind::Mountain, AreaKind::DeepWater),
        AreaBorderKind::Coastline
    );
}

#[test]
fn shallow_deep_water_border() {
    assert_eq!(
        classify_area_border(AreaKind::Water, AreaKind::DeepWater),
        AreaBorderKind::ShallowDeepWater
    );
}

#[test]
fn border_kinds_of_other_pairs() {
    assert_eq!(classify_area_border(AreaKind::Ice, AreaKind::Ice), AreaBorderKind::SameType);
    assert_eq!(
        classify_area_border(AreaKind::Land, AreaKind::IceMountain),
        AreaBorderKind::LandMountain
    );
    assert!(!is_coastline_border(AreaKind::Land, AreaKind::Mountain));
    assert!(!is_coastline_border(AreaKind::Water, AreaKind::Water));
}

#[test]
fn border_classification_is_symmetric() {
    let kinds = [
        AreaKind::Water,
        AreaKind::DeepWater,
        AreaKind::Land,
        AreaKind::Mountain,
        AreaKind::Ice,
        AreaKind::IceMountain,
    ];
    for left in kinds {
        for right in kinds {
            assert_eq!(classify_area_border(left, right), classify_area_border(right, left));
        }
    }
}

#[test]
fn border_kind_godot_indices_roundtrip() {
    for kind in [
        AreaBorderKind::SameType,
        AreaBorderKind::Coastline,
        AreaBorderKind::ShallowDeepWater,
        AreaBorderKind::LandMountain,
    ] {
        assert_eq!(AreaBorderKind::from_godot_index(kind.godot_index()), Some(kind));
    }
    assert_eq!(AreaBorderKind::Coastline.godot_index(), 1);
    assert_eq!(AreaBorderKind::from_godot_index(4), None);
    assert_eq!(AreaBorderKind::from_godot_index(-1), None);
}

#[test]
fn terrain_godot_indices_roundtrip() {
    for (index, terrain_type) in TerrainType::ALL.iter().enumerate() {
        assert_eq!(terrain_type.godot_index(), index as i32);
        assert_eq!(TerrainType::from_godot_index(index as i32), Some(*terrain_type));
    }
    assert_eq!(TerrainType::from_godot_index(6), None);
    assert_eq!(TerrainType::from_godot_index(-3), None);
}

#[test]
fn elevation_bands_partition_terrain_types() {
    for terrain_type in TerrainType::ALL {
        let band = terrain_type.elevation_band();
        assert!(band.terrain_types().contains(&terrain_type));
        let other = match band {
            ElevationBand::AboveSeaLevel => ElevationBand::BelowSeaLevel,
            ElevationBand::BelowSeaLevel => ElevationBand::AboveSeaLevel,
        };
        assert!(!other.terrain_types().contains(&terrain_type));
    }
    assert_eq!(TerrainType::Water.elevation_band(), ElevationBand::BelowSeaLevel);
    assert_eq!(TerrainType::IceMountain.elevation_band(), ElevationBand::AboveSeaLevel);
}

#[test]
fn terrain_map_reads_back_its_types() {
    let map = TerrainMap::new(vec![TerrainType::Land, TerrainType::Water]);
    assert_eq!(map.len(), 2);
    assert!(!map.is_empty());
    assert_eq!(map.get(1), TerrainType::Water);
    assert_eq!(map.as_slice(), &[TerrainType::Land, TerrainType::Water]);
    assert!(TerrainMap::new(Vec::new()).is_empty());
}

#[test]
fn voronoi_areas_follow_site_terrain() {
    let terrain = TerrainMap::new(vec![TerrainType::Land, TerrainType::DeepWater, TerrainType::Ice]);
    let mesh = SphericalMesh::new(vec![[0, 1, 2]], vec![[0, 1], [1, 2], [0, 2]]);
    let area_map = build_voronoi_areas(&terrain, &mesh, &triangle_graph());
    assert_eq!(area_map.areas.len(), 3);
    assert_eq!(area_map.site_to_area, vec![0, 1, 2]);
    assert_eq!(
        area_map.areas[1],
        TerrainArea { id: 1, site_index: 1, kind: AreaKind::DeepWater }
    );
    assert!(area_map.areas.iter().enumerate().all(|(index, area)| area.site_index == index));
}

#[test]
fn border_edges_are_the_edges_between_different_kinds() {
    let terrain = TerrainMap::new(vec![
        TerrainType::Land,
        TerrainType::Land,
        TerrainType::Water,
        TerrainType::Water,
    ]);
    let mesh = SphericalMesh::new(
        vec![[0, 1, 2], [1, 3, 2]],
        vec![[1, 0], [2, 1], [0, 2], [3, 1], [2, 3], [1, 2]],
    );
    let area_map = build_voronoi_areas(&terrain, &mesh, &linear_graph(4));
    let mut borders = area_border_edges(&mesh, &area_map);
    assert_eq!(borders, vec![[1, 2], [0, 2], [1, 3]]);
    borders.sort_unstable();
    assert_eq!(borders, vec![[0, 2], [1, 2], [1, 3]]);
}

#[test]
fn edge_border_kinds_compare_site_with_each_neighbor() {
    let terrain = TerrainMap::new(vec![
        TerrainType::Land,
        TerrainType::Water,
        TerrainType::Mountain,
        TerrainType::Land,
        TerrainType::DeepWater,
    ]);
    let mesh = SphericalMesh::new(Vec::new(), Vec::new());
    let area_map = build_voronoi_areas(&terrain, &mesh, &linear_graph(5));
    let kinds = edge_border_kinds(&area_map, 0, &[1, 2, 3, 4]);
    assert_eq!(
        kinds,
        vec![
            AreaBorderKind::Coastline,
            AreaBorderKind::LandMountain,
            AreaBorderKind::SameType,
            AreaBorderKind::Coastline,
        ]
    );
    assert!(edge_border_kinds(&area_map, 1, &[]).is_empty());
}

const COAST: AreaBorderKind = AreaBorderKind::Coastline;
const SAME: AreaBorderKind = AreaBorderKind::SameType;

fn polygon(site: usize, neighbors: Vec<usize>, kinds: Vec<AreaBorderKind>) -> PolygonBorders {
    PolygonBorders {
        site_index: site,
        edge_count: neighbors.len(),
        boundary_neighbors: neighbors,
        edge_border_kinds: kinds,
    }
}

#[test]
fn coastline_edges_keep_one_edge_per_site_pair() {
    let polygons = vec![
        polygon(0, vec![1, 2, 3], vec![COAST, SAME, COAST]),
        polygon(1, vec![0, 2, 3], vec![COAST, COAST, SAME]),
        polygon(2, vec![0, 1], vec![SAME, COAST]),
        polygon(3, vec![0, 1, 2], vec![COAST, SAME, SAME]),
    ];
    let picks = coastline_edges(&polygons);
    assert_eq!(picks, vec![(0, 0), (0, 2), (1, 1)]);
}

#[test]
fn coastline_edges_skip_open_polygons() {
    let polygons = vec![polygon(4, vec![5, 6], vec![COAST, COAST])];
    assert!(coastline_edges(&polygons).is_empty());
    assert!(coastline_edges(&[]).is_empty());
}

#[test]
fn polar_caps_freeze_temperate_terrain() {
    let temperate = [
        TerrainType::Mountain,
        TerrainType::Water,
        TerrainType::DeepWater,
        TerrainType::Land,
        TerrainType::Mountain,
    ];
    let north = [true, true, false, false, false];
    let south = [false, false, true, false, false];
    let terrain = apply_cap_membership(&temperate, &north, &south);
    assert_eq!(
        terrain,
        vec![
            TerrainType::IceMountain,
            TerrainType::Ice,
            TerrainType::Ice,
            TerrainType::Land,
            TerrainType::Mountain,
        ]
    );
}

#[test]
fn above_sea_vertex_never_reassigned_to_water() {
    let graph = triangle_graph();
    let bands = vec![
        ElevationBand::AboveSeaLevel,
        ElevationBand::BelowSeaLevel,
        ElevationBand::BelowSeaLevel,
    ];
    let reassigner = BandPreservingReassigner::new(bands);
    let terrain = [TerrainType::Mountain, TerrainType::Water, TerrainType::Water];
    let mut rng = StdRng::seed_from_u64(1);

    let replacement = reassigner.reassign(0, TerrainType::Mountain, &terrain, &graph, &mut rng);

    assert_ne!(replacement, TerrainType::Water);
    assert!(matches!(
        replacement,
        TerrainType::Land | TerrainType::Mountain | TerrainType::Ice | TerrainType::IceMountain
    ));
}

#[test]
fn prefers_same_band_neighbor_type() {
    let graph = triangle_graph();
    let bands = vec![
        ElevationBand::AboveSeaLevel,
        ElevationBand::AboveSeaLevel,
        ElevationBand::BelowSeaLevel,
    ];
    let reassigner = BandPreservingReassigner::new(bands);
    let terrain = [TerrainType::Mountain, TerrainType::Land, TerrainType::Water];
    let mut rng = StdRng::seed_from_u64(3);

    let replacement = reassigner.reassign(0, TerrainType::Mountain, &terrain, &graph, &mut rng);

    assert_eq!(replacement, TerrainType::Land);
}

#[test]
fn band_candidates_fall_back_to_the_band() {
    let graph = triangle_graph();
    let reassigner = BandPreservingReassigner::new(vec![
        ElevationBand::BelowSeaLevel,
        ElevationBand::AboveSeaLevel,
        ElevationBand::AboveSeaLevel,
    ]);
    let terrain = [TerrainType::Water, TerrainType::Land, TerrainType::Mountain];
    assert_eq!(reassigner.band_at(0), ElevationBand::BelowSeaLevel);
    assert_eq!(
        reassigner.candidates(0, TerrainType::Water, &terrain, &graph),
        vec![TerrainType::DeepWater]
    );
    let mut rng = StdRng::seed_from_u64(9);
    assert_eq!(
        reassigner.reassign(0, TerrainType::Water, &terrain, &graph, &mut rng),
        TerrainType::DeepWater
    );
}

#[test]
fn above_sea_fallback_is_land_or_mountain() {
    let graph = triangle_graph();
    let reassigner = BandPreservingReassigner::new(vec![
        ElevationBand::AboveSeaLevel,
        ElevationBand::BelowSeaLevel,
        ElevationBand::BelowSeaLevel,
    ]);
    let terrain = [TerrainType::Ice, TerrainType::Water, TerrainType::DeepWater];
    assert_eq!(
        reassigner.candidates(0, TerrainType::Ice, &terrain, &graph),
        vec![TerrainType::Land, TerrainType::Mountain]
    );
    assert_eq!(
        reassigner.candidates(0, TerrainType::Mountain, &terrain, &graph),
        vec![TerrainType::Land]
    );
    for seed in 0..20 {
        let mut rng = StdRng::seed_from_u64(seed);
        let t = reassigner.reassign(0, TerrainType::Ice, &terrain, &graph, &mut rng);
        assert!(t == TerrainType::Land || t == TerrainType::Mountain);
        assert_eq!(
            reassigner.reassign(0, TerrainType::Land, &terrain, &graph, &mut rng),
            TerrainType::Mountain
        );
    }
}

#[test]
fn adjacent_candidates_are_distinct_neighbor_types() {
    let graph = SurfaceGraph::from_adjacency(vec![
        vec![(1, unit_weight()), (2, unit_weight()), (3, unit_weight()), (4, unit_weight())],
        vec![(0, unit_weight())],
        vec![(0, unit_weight())],
        vec![(0, unit_weight())],
        vec![(0, unit_weight())],
    ]);
    let terrain = [
        TerrainType::Land,
        TerrainType::Water,
        TerrainType::Land,
        TerrainType::Water,
        TerrainType::Ice,
    ];
    assert_eq!(
        AdjacentTypeReassigner.candidates(0, TerrainType::Land, &terrain, &graph),
        vec![TerrainType::Water, TerrainType::Ice]
    );
    let mut rng = StdRng::seed_from_u64(5);
    for _ in 0..20 {
        let replacement =
            AdjacentTypeReassigner.reassign(0, TerrainType::Land, &terrain, &graph, &mut rng);
        assert!(replacement == TerrainType::Water || replacement == TerrainType::Ice);
    }
}

#[test]
fn adjacent_candidates_fall_back_to_other_types() {
    let graph = linear_graph(2);
    let terrain = [TerrainType::Land, TerrainType::Land];
    let candidates = AdjacentTypeReassigner.candidates(0, TerrainType::Land, &terrain, &graph);
    assert_eq!(candidates.len(), 5);
    assert!(!candidates.contains(&TerrainType::Land));
}

#[test]
fn random_index_is_draw_modulo_length() {
    assert_eq!(index_from_draw(17, 5), 2);
    assert_eq!(index_from_draw(u32::MAX, 6), (u32::MAX % 6) as usize);
    let mut rng = StdRng::seed_from_u64(2);
    for len in 1..20 {
        assert!(random_index(&mut rng, len) < len);
    }
}

#[test]
fn seeded_generators_repeat_their_draws() {
    let mut first = terrain_rng_from_seed(Some(42)).expect("a fixed seed always gives a generator");
    let mut second = terrain_rng_from_godot_seed(42).expect("a non-negative seed always gives a generator");
    for _ in 0..10 {
        assert_eq!(random_terrain(&mut first), random_terrain(&mut second));
    }
    assert_eq!(seed_from_godot(-1), None);
    assert_eq!(seed_from_godot(0), Some(0));
    assert_eq!(seed_from_godot(i32::MAX), Some(i32::MAX as u32));
}

#[test]
fn random_seed_gives_a_usable_generator() {
    let mut rng = terrain_rng_from_godot_seed(-1).expect("the test machine has an entropy source");
    let t = random_terrain(&mut rng);
    assert!(TerrainType::ALL.contains(&t));
    assert!(terrain_rng_from_seed(None).is_some());
}

#[test]
fn choose_and_shuffle_keep_items() {
    let mut rng = StdRng::seed_from_u64(4);
    let items = [3u8, 9, 27];
    for _ in 0..10 {
        assert!(items.contains(&choose_item(&items, &mut rng)));
    }
    let mut shuffled = vec![1usize, 2, 3, 4, 5, 6, 7];
    shuffle(&mut rng, &mut shuffled);
    let mut sorted = shuffled.clone();
    sorted.sort_unstable();
    assert_eq!(sorted, vec![1, 2, 3, 4, 5, 6, 7]);
}

#[test]
fn random_assigner_covers_every_vertex() {
    let graph = linear_graph(12);
    let mut rng = StdRng::seed_from_u64(3);
    let terrain = RandomAssigner.assign(&graph, &mut rng);
    assert_eq!(terrain.len(), graph.len());
    assert!(terrain.iter().all(|terrain_type| TerrainType::ALL.contains(terrain_type)));
}

#[test]
fn cluster_seeds_take_the_terrain_types_in_order() {
    let graph = linear_graph(30);
    assert_eq!(ClusterAssigner::seed_count(30), 6);
    assert_eq!(ClusterAssigner::seed_count(4), 4);
    let seeds = [0usize, 6, 12, 18, 24, 29];
    let mut rng = StdRng::seed_from_u64(11);
    let terrain = ClusterAssigner.grow_from_seeds(&graph, &seeds, &mut rng);
    assert_eq!(terrain.len(), 30);
    for (seed, terrain_type) in seeds.iter().zip(TerrainType::ALL) {
        assert_eq!(terrain[*seed], terrain_type);
    }
    assert_eq!(terrain[1], TerrainType::ALL[0]);
    assert_eq!(terrain[5], TerrainType::ALL[1]);
    assert_eq!(terrain[28], TerrainType::ALL[5]);
    for terrain_type in TerrainType::ALL {
        assert!(terrain.contains(&terrain_type));
    }
}

#[test]
fn cluster_growth_randomizes_unreached_vertices() {
    let graph = SurfaceGraph::from_adjacency(vec![Vec::new(); 4]);
    let mut rng = StdRng::seed_from_u64(8);
    let terrain = ClusterAssigner.grow_from_seeds(&graph, &[2], &mut rng);
    assert_eq!(terrain.len(), 4);
    assert_eq!(terrain[2], TerrainType::ALL[0]);
}

#[test]
fn cluster_growth_takes_the_nearest_seed_type() {
    let mut adjacency = vec![Vec::new(); 6];
    for index in 0..4usize {
        adjacency[index].push((index + 1, unit_weight()));
        adjacency[index + 1].push((index, unit_weight()));
    }
    let graph = SurfaceGraph::from_adjacency(adjacency);
    for seed in 0..8u64 {
        let mut rng = StdRng::seed_from_u64(seed);
        let terrain = ClusterAssigner.grow_from_seeds(&graph, &[0, 4], &mut rng);
        assert_eq!(terrain[0], TerrainType::Land);
        assert_eq!(terrain[1], TerrainType::Land);
        assert!(terrain[2] == TerrainType::Land || terrain[2] == TerrainType::Water);
        assert_eq!(terrain[3], TerrainType::Water);
        assert_eq!(terrain[4], TerrainType::Water);
        assert!(TerrainType::ALL.contains(&terrain[5]));
    }
}

#[test]
fn voronoi_areas_cover_every_site() {
    let terrain = TerrainMap::new(vec![TerrainType::Land; 80]);
    let mesh = SphericalMesh::new(Vec::new(), Vec::new());
    let graph = SurfaceGraph::from_adjacency(vec![Vec::new(); 80]);
    let area_map = build_voronoi_areas(&terrain, &mesh, &graph);
    assert_eq!(area_map.areas.len(), 80);
    assert!(area_map
        .areas
        .iter()
        .enumerate()
        .all(|(index, area)| area.site_index == index));
}

#[test]
fn shuffle_step_swaps_with_the_drawn_slot() {
    let mut items = vec![10, 20, 30, 40];
    shuffle_step(&mut items, 3, 9);
    assert_eq!(items, vec![10, 40, 30, 20]);
    shuffle_step(&mut items, 2, 2);
    assert_eq!(items, vec![10, 40, 30, 20]);
    shuffle_step(&mut items, 1, 4);
    assert_eq!(items, vec![40, 10, 30, 20]);
}

#[test]
fn seed_draws_keep_only_new_vertices() {
    let mut seeds = vec![4usize, 1];
    assert!(!ClusterAssigner::keep_new_seed(&mut seeds, 1));
    assert!(ClusterAssigner::keep_new_seed(&mut seeds, 7));
    assert_eq!(seeds, vec![4, 1, 7]);
}

#[test]
fn same_seed_gives_the_same_cluster_terrain() {
    let graph = linear_graph(20);
    let seeds = [0usize, 4, 9, 13, 17, 19];
    let first = ClusterAssigner.grow_from_seeds(&graph, &seeds, &mut terrain_rng_from_seed(Some(5)).unwrap());
    let second = ClusterAssigner.grow_from_seeds(&graph, &seeds, &mut terrain_rng_from_godot_seed(5).unwrap());
    assert_eq!(first, second);
}

#[test]
fn cluster_assigner_covers_every_vertex() {
    let graph = linear_graph(12);
    let mut rng = StdRng::seed_from_u64(3);
    let terrain = ClusterAssigner.assign(&graph, &mut rng);
    assert_eq!(terrain.len(), graph.len());
    assert!(terrain.iter().all(|terrain_type| {
        TerrainType::ALL.contains(terrain_type)
    }));
}

#[test]
fn cluster_assigner_includes_all_types_on_long_chain() {
    let graph = linear_graph(30);
    let mut rng = StdRng::seed_from_u64(11);
    let terrain = ClusterAssigner.assign(&graph, &mut rng);
    for terrain_type in TerrainType::ALL {
        assert!(
            terrain.contains(&terrain_type),
            "missing {terrain_type:?}"
        );
    }
}

#[test]
fn cluster_seeds_are_distinct_vertices() {
    for node_count in [0usize, 1, 3, 6, 40] {
        let mut rng = StdRng::seed_from_u64(node_count as u64);
        let seeds = ClusterAssigner::draw_seeds(node_count, &mut rng);
        assert_eq!(seeds.len(), node_count.min(6));
        for (i, seed) in seeds.iter().enumerate() {
            assert!(*seed < node_count);
            assert!(!seeds[..i].contains(seed));
        }
    }
    assert!(ClusterAssigner.assign(&linear_graph(0), &mut StdRng::seed_from_u64(1)).is_empty());
}

#[test]
fn draws_select_terrain_and_items_by_remainder() {
    assert_eq!(terrain_from_draw(0), TerrainType::Land);
    assert_eq!(terrain_from_draw(3), TerrainType::Mountain);
    assert_eq!(terrain_from_draw(11), TerrainType::IceMountain);
    assert_eq!(terrain_from_draw(13), TerrainType::Water);
    let items = [10, 20, 30];
    assert_eq!(item_from_draw(&items, 0), 10);
    assert_eq!(item_from_draw(&items, 5), 30);
    assert_eq!(item_from_draw(&items, 7), 20);
}

#[test]
fn shuffle_with_draws_applies_each_step_from_the_end() {
    // index 3 swaps with 7 % 4 = 3, index 2 with 4 % 3 = 1, index 1 with 6 % 2 = 0.
    let mut items = vec![1, 2, 3, 4];
    shuffle_with_draws(&mut items, &[7, 4, 6]);
    assert_eq!(items, vec![3, 1, 2, 4]);

    let mut single = vec![9];
    shuffle_with_draws(&mut single, &[]);
    assert_eq!(single, vec![9]);

    let mut rng = StdRng::seed_from_u64(21);
    let mut shuffled: Vec<u32> = (0..10).collect();
    shuffle(&mut rng, &mut shuffled);
    let mut replayed: Vec<u32> = (0..10).collect();
    let mut draws_rng = StdRng::seed_from_u64(21);
    let draws: Vec<u32> = (0..9).map(|_| rand::RngCore::next_u32(&mut draws_rng)).collect();
    shuffle_with_draws(&mut replayed, &draws);
    assert_eq!(shuffled, replayed);
}
