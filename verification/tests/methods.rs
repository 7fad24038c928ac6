use fibonacci_sphere::methods::epsilon::{
    packing_epsilon, packing_with_poles_epsilon, AVERAGE_NEIGHBOR_EPSILON, EPSILON_SCALE,
};
use fibonacci_sphere::methods::latlong::LatitudeLongitude;
use fibonacci_sphere::methods::{
    method_description_for_index, Canonical, CanonicalMidpoint, OffsetAverageNeighbor, OffsetPacking, OffsetPackingWithPoles,
};
use fibonacci_sphere::{DistributionMethod, OptimizationGoal};

fn as_fraction(hundredths: u32) -> f64 {
    hundredths as f64 / EPSILON_SCALE as f64
}

#[test]
fn distribution_metadata() {
    assert_eq!(Canonical.name(), "canonical");
    assert_eq!(CanonicalMidpoint.name(), "canonical_midpoint");
    assert_eq!(Canonical.optimizes(), OptimizationGoal::Baseline);
    assert_eq!(CanonicalMidpoint.optimizes(), OptimizationGoal::PackingDistance);
}

#[test]
fn offset_metadata() {
    assert_eq!(OffsetPacking.name(), "offset_packing");
    assert_eq!(OffsetPackingWithPoles.name(), "offset_packing_with_poles");
    assert_eq!(OffsetAverageNeighbor.name(), "offset_average_neighbor");
    assert_eq!(OffsetPacking.optimizes(), OptimizationGoal::PackingDistance);
    assert_eq!(OffsetPackingWithPoles.optimizes(), OptimizationGoal::PackingDistance);
    assert_eq!(
        OffsetAverageNeighbor.optimizes(),
        OptimizationGoal::AverageNeighborDistance
    );
}

#[test]
fn packing_epsilon_low_tier() {
    assert_eq!(as_fraction(packing_epsilon(1)), 0.33);
    assert_eq!(as_fraction(packing_epsilon(23)), 0.33);
}

#[test]
fn packing_epsilon_mid_tiers() {
    assert_eq!(as_fraction(packing_epsilon(24)), 1.33);
    assert_eq!(as_fraction(packing_epsilon(176)), 1.33);
    assert_eq!(as_fraction(packing_epsilon(177)), 3.33);
    assert_eq!(as_fraction(packing_epsilon(889)), 3.33);
    assert_eq!(as_fraction(packing_epsilon(890)), 10.0);
    assert_eq!(as_fraction(packing_epsilon(10_999)), 10.0);
    assert_eq!(as_fraction(packing_epsilon(11_000)), 27.0);
    assert_eq!(as_fraction(packing_epsilon(399_999)), 27.0);
    assert_eq!(as_fraction(packing_epsilon(400_000)), 75.0);
    assert_eq!(as_fraction(packing_epsilon(599_999)), 75.0);
    assert_eq!(as_fraction(packing_epsilon(600_000)), 214.0);
}

#[test]
fn poles_epsilon_all_tiers() {
    assert_eq!(as_fraction(packing_with_poles_epsilon(1)), 2.66);
    assert_eq!(as_fraction(packing_with_poles_epsilon(79)), 2.66);
    assert_eq!(as_fraction(packing_with_poles_epsilon(80)), 3.33);
    assert_eq!(as_fraction(packing_with_poles_epsilon(999)), 3.33);
    assert_eq!(as_fraction(packing_with_poles_epsilon(1_000)), 10.0);
    assert_eq!(as_fraction(packing_with_poles_epsilon(39_999)), 10.0);
    assert_eq!(as_fraction(packing_with_poles_epsilon(40_000)), 25.0);
}

#[test]
fn epsilon_tables_never_decrease() {
    let counts = [1usize, 23, 24, 176, 177, 889, 890, 10_999, 11_000, 399_999, 400_000, 600_000, usize::MAX];
    for pair in counts.windows(2) {
        assert!(packing_epsilon(pair[0]) <= packing_epsilon(pair[1]));
        assert!(packing_with_poles_epsilon(pair[0]) <= packing_with_poles_epsilon(pair[1]));
    }
}

#[test]
fn average_neighbor_epsilon_constant() {
    assert!((as_fraction(AVERAGE_NEIGHBOR_EPSILON) - 0.36).abs() < f64::EPSILON);
}

#[test]
fn every_method_has_nonempty_info() {
    for method in DistributionMethod::ALL {
        let info = method.info();
        assert!(!info.display_name.is_empty());
        assert!(!info.purpose.is_empty());
        assert!(!info.advantages.is_empty());
        assert!(!info.disadvantages.is_empty());
        assert!(!info.references.is_empty());
    }
}

#[test]
fn latlong_metadata() {
    assert_eq!(LatitudeLongitude.name(), "latitude_longitude");
    assert_eq!(LatitudeLongitude.optimizes(), OptimizationGoal::EqualArea);
}

#[test]
fn latlong_ring_count_rounds_square_root() {
    assert_eq!(LatitudeLongitude::ring_count(1), 1);
    assert_eq!(LatitudeLongitude::ring_count(2), 1);
    assert_eq!(LatitudeLongitude::ring_count(3), 2);
    assert_eq!(LatitudeLongitude::ring_count(6), 2);
    assert_eq!(LatitudeLongitude::ring_count(7), 3);
    assert_eq!(LatitudeLongitude::ring_count(100), 10);
    assert_eq!(LatitudeLongitude::ring_count(110), 10);
    assert_eq!(LatitudeLongitude::ring_count(111), 11);
}

#[test]
fn latlong_rings_spread_points_front_loaded() {
    assert_eq!(LatitudeLongitude::ring_sizes(0), Vec::<usize>::new());
    assert_eq!(LatitudeLongitude::ring_sizes(1), vec![1]);
    assert_eq!(LatitudeLongitude::ring_sizes(7), vec![3, 2, 2]);
    assert_eq!(LatitudeLongitude::ring_sizes(10), vec![4, 3, 3]);
    let sizes = LatitudeLongitude::ring_sizes(1000);
    assert_eq!(sizes.len(), 32);
    assert_eq!(sizes.iter().sum::<usize>(), 1000);
    assert!(sizes.iter().all(|&size| size >= 1));
}

#[test]
fn godot_index_roundtrip() {
    for method in DistributionMethod::ALL {
        let index = method.to_godot_index();
        assert_eq!(DistributionMethod::from_godot_index(index), Some(method));
    }
    assert!(DistributionMethod::from_godot_index(-1).is_none());
    assert!(DistributionMethod::from_godot_index(6).is_none());
}

#[test]
fn godot_indices_follow_the_picker_order() {
    let expected = [
        (DistributionMethod::CanonicalMidpoint, 0),
        (DistributionMethod::Canonical, 1),
        (DistributionMethod::OffsetPacking, 2),
        (DistributionMethod::OffsetPackingWithPoles, 3),
        (DistributionMethod::OffsetAverageNeighbor, 4),
        (DistributionMethod::LatitudeLongitude, 5),
    ];
    for (method, index) in expected {
        assert_eq!(method.to_godot_index(), index);
    }
    assert_eq!(DistributionMethod::from_godot_index(i32::MAX), None);
    assert_eq!(DistributionMethod::from_godot_index(i32::MIN), None);
}

#[test]
fn default_method_is_canonical_midpoint() {
    assert_eq!(DistributionMethod::default(), DistributionMethod::CanonicalMidpoint);
}

#[test]
fn all_lists_every_variant_once() {
    assert_eq!(DistributionMethod::ALL.len(), 6);
    let mut sorted = DistributionMethod::ALL;
    sorted.sort_by_key(|m| format!("{m:?}"));
    assert_eq!(sorted[0], DistributionMethod::Canonical);
    assert_eq!(sorted[5], DistributionMethod::OffsetPackingWithPoles);
}

#[test]
fn names_are_non_empty_and_distinct() {
    let names: Vec<_> = DistributionMethod::ALL.iter().map(|m| m.name()).collect();
    assert!(names.iter().all(|n| !n.is_empty()));
    let mut unique = names.clone();
    unique.sort_unstable();
    unique.dedup();
    assert_eq!(unique.len(), names.len());
}

#[test]
fn optimization_goals_match_method() {
    assert_eq!(DistributionMethod::Canonical.optimizes(), OptimizationGoal::Baseline);
    assert_eq!(
        DistributionMethod::CanonicalMidpoint.optimizes(),
        OptimizationGoal::PackingDistance
    );
    assert_eq!(
        DistributionMethod::OffsetPacking.optimizes(),
        OptimizationGoal::PackingDistance
    );
    assert_eq!(
        DistributionMethod::OffsetPackingWithPoles.optimizes(),
        OptimizationGoal::PackingDistance
    );
    assert_eq!(
        DistributionMethod::OffsetAverageNeighbor.optimizes(),
        OptimizationGoal::AverageNeighborDistance
    );
    assert_eq!(DistributionMethod::LatitudeLongitude.optimizes(), OptimizationGoal::EqualArea);
}

#[test]
fn method_names_match_their_distributions() {
    assert_eq!(DistributionMethod::Canonical.name(), Canonical.name());
    assert_eq!(DistributionMethod::CanonicalMidpoint.name(), CanonicalMidpoint.name());
    assert_eq!(DistributionMethod::OffsetPacking.name(), OffsetPacking.name());
    assert_eq!(
        DistributionMethod::OffsetPackingWithPoles.name(),
        OffsetPackingWithPoles.name()
    );
    assert_eq!(
        DistributionMethod::OffsetAverageNeighbor.name(),
        OffsetAverageNeighbor.name()
    );
    assert_eq!(DistributionMethod::LatitudeLongitude.name(), LatitudeLongitude.name());
}

#[test]
fn description_lists_goal_and_every_bullet() {
    let method = DistributionMethod::LatitudeLongitude;
    let info = method.info();
    let text = method.format_description();
    assert!(text.starts_with("Latitude–Longitude\nGoal: EqualArea\n\nRegular lat–long grid"));
    assert!(text.contains("\n\nAdvantages:\n  • Structured rings align"));
    assert!(text.contains("\nDisadvantages:\n  • Severe point clustering"));
    assert!(text.contains("\nReferences:\n  • Gonzalez, "));
    assert!(text.ends_with("  • Standard geospatial / equirectangular sampling literature\n"));
    let bullets = text.matches("  • ").count();
    assert_eq!(
        bullets,
        info.advantages.len() + info.disadvantages.len() + info.references.len()
    );
    assert_eq!(text, info.format_description(OptimizationGoal::EqualArea));
}

#[test]
fn description_of_bare_info_has_empty_sections() {
    let info = fibonacci_sphere::MethodInfo {
        display_name: "Plain",
        purpose: "Nothing else.",
        advantages: &[],
        disadvantages: &["slow"],
        references: &[],
    };
    assert_eq!(
        info.format_description(OptimizationGoal::Baseline),
        "Plain\nGoal: Baseline\n\nNothing else.\n\nAdvantages:\n\nDisadvantages:\n  • slow\n\nReferences:\n"
    );
}

#[test]
fn description_by_index_matches_the_method() {
    for method in DistributionMethod::ALL {
        assert_eq!(
            method_description_for_index(method.to_godot_index()),
            method.format_description()
        );
    }
    assert_eq!(method_description_for_index(6), "");
    assert_eq!(method_description_for_index(-1), "");
}
