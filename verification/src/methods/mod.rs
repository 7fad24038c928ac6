//! Sphere point distribution methods and their metadata.
//!
//! The numeric point generators themselves live with the floating-point front end; this
//! module holds what every method is, what it optimizes for, how it is described and
//! indexed, and the integer tables and layouts the generators follow.

pub mod epsilon;
pub mod info;
pub mod latlong;

use vstd::prelude::*;

pub use info::MethodInfo;
pub use latlong::LatitudeLongitude;

use info::{description_text, info_of, method_info};

verus! {

/// What a distribution method primarily optimizes for.
#[derive(Debug, Clone, Copy, PartialEq, Eq, Structural)]
pub enum OptimizationGoal {
    /// Baseline reference; no specific optimization (canonical Fibonacci).
    Baseline,
    /// Minimum nearest-neighbor (packing) distance.
    PackingDistance,
    /// Uniformity of nearest-neighbor distances (lower max/min ratio).
    AverageNeighborDistance,
    /// Equal-area ring structure; not equal point density (lat–long baseline).
    EqualArea,
}

/// Name of an optimization goal as it appears in descriptions.
pub open spec fn goal_name(goal: OptimizationGoal) -> Seq<char> {
    match goal {
        OptimizationGoal::Baseline => "Baseline"@,
        OptimizationGoal::PackingDistance => "PackingDistance"@,
        OptimizationGoal::AverageNeighborDistance => "AverageNeighborDistance"@,
        OptimizationGoal::EqualArea => "EqualArea"@,
    }
}

/// Name of an optimization goal as it appears in descriptions.
pub fn goal_label(goal: OptimizationGoal) -> (label: &'static str)
    ensures
        label@ == goal_name(goal),
{
    match goal {
        OptimizationGoal::Baseline => "Baseline",
        OptimizationGoal::PackingDistance => "PackingDistance",
        OptimizationGoal::AverageNeighborDistance => "AverageNeighborDistance",
        OptimizationGoal::EqualArea => "EqualArea",
    }
}

/// Classic Fibonacci lattice with `y = i / n` (no midpoint offset).
#[derive(Debug, Clone, Copy, Default)]
pub struct Canonical;

/// Canonical lattice with midpoint rule `(i + 0.5) / n` for better packing distance.
#[derive(Debug, Clone, Copy, Default)]
pub struct CanonicalMidpoint;

/// Offset Fibonacci lattice optimized for minimum nearest-neighbor distance.
#[derive(Debug, Clone, Copy, Default)]
pub struct OffsetPacking;

/// Offset lattice with explicit north/south pole points.
#[derive(Debug, Clone, Copy, Default)]
pub struct OffsetPackingWithPoles;

/// Offset lattice with a fixed ε for average nearest-neighbor distance.
#[derive(Debug, Clone, Copy, Default)]
pub struct OffsetAverageNeighbor;

impl Canonical {
    /// Machine-readable method name.
    pub fn name(&self) -> (name: &'static str)
        ensures
            name@ == method_name(DistributionMethod::Canonical),
    {
        "canonical"
    }

    /// Primary optimization goal of this method.
    pub fn optimizes(&self) -> (goal: OptimizationGoal)
        ensures
            goal == method_goal(DistributionMethod::Canonical),
    {
        OptimizationGoal::Baseline
    }
}

impl CanonicalMidpoint {
    /// Machine-readable method name.
    pub fn name(&self) -> (name: &'static str)
        ensures
            name@ == method_name(DistributionMethod::CanonicalMidpoint),
    {
        "canonical_midpoint"
    }

    /// Primary optimization goal of this method.
    pub fn optimizes(&self) -> (goal: OptimizationGoal)
        ensures
            goal == method_goal(DistributionMethod::CanonicalMidpoint),
    {
        OptimizationGoal::PackingDistance
    }
}

impl OffsetPacking {
    /// Machine-readable method name.
    pub fn name(&self) -> (name: &'static str)
        ensures
            name@ == method_name(DistributionMethod::OffsetPacking),
    {
        "offset_packing"
    }

    /// Primary optimization goal of this method.
    pub fn optimizes(&self) -> (goal: OptimizationGoal)
        ensures
            goal == method_goal(DistributionMethod::OffsetPacking),
    {
        OptimizationGoal::PackingDistance
    }
}

impl OffsetPackingWithPoles {
    /// Machine-readable method name.
    pub fn name(&self) -> (name: &'static str)
        ensures
            name@ == method_name(DistributionMethod::OffsetPackingWithPoles),
    {
        "offset_packing_with_poles"
    }

    /// Primary optimization goal of this method.
    pub fn optimizes(&self) -> (goal: OptimizationGoal)
        ensures
            goal == method_goal(DistributionMethod::OffsetPackingWithPoles),
    {
        OptimizationGoal::PackingDistance
    }
}

impl OffsetAverageNeighbor {
    /// Machine-readable method name.
    pub fn name(&self) -> (name: &'static str)
        ensures
            name@ == method_name(DistributionMethod::OffsetAverageNeighbor),
    {
        "offset_average_neighbor"
    }

    /// Primary optimization goal of this method.
    pub fn optimizes(&self) -> (goal: OptimizationGoal)
        ensures
            goal == method_goal(DistributionMethod::OffsetAverageNeighbor),
    {
        OptimizationGoal::AverageNeighborDistance
    }
}

/// Selectable distribution method.
#[derive(Debug, Clone, Copy, PartialEq, Eq, Structural)]
pub enum DistributionMethod {
    /// Midpoint canonical Fibonacci lattice; good general-purpose packing (the default).
    CanonicalMidpoint,
    /// Classic Fibonacci lattice without midpoint offset.
    Canonical,
    /// Offset lattice optimized for minimum nearest-neighbor distance.
    OffsetPacking,
    /// Offset lattice with explicit north and south pole points.
    OffsetPackingWithPoles,
    /// Offset lattice optimized for average nearest-neighbor distance.
    OffsetAverageNeighbor,
    /// Regular latitude-longitude grid baseline.
    LatitudeLongitude,
}

/// Machine-readable name of each method.
pub open spec fn method_name(method: DistributionMethod) -> Seq<char> {
    match method {
        DistributionMethod::CanonicalMidpoint => "canonical_midpoint"@,
        DistributionMethod::Canonical => "canonical"@,
        DistributionMethod::OffsetPacking => "offset_packing"@,
        DistributionMethod::OffsetPackingWithPoles => "offset_packing_with_poles"@,
        DistributionMethod::OffsetAverageNeighbor => "offset_average_neighbor"@,
        DistributionMethod::LatitudeLongitude => "latitude_longitude"@,
    }
}

/// Primary optimization goal of each method.
pub open spec fn method_goal(method: DistributionMethod) -> OptimizationGoal {
    match method {
        DistributionMethod::Canonical => OptimizationGoal::Baseline,
        DistributionMethod::CanonicalMidpoint => OptimizationGoal::PackingDistance,
        DistributionMethod::OffsetPacking => OptimizationGoal::PackingDistance,
        DistributionMethod::OffsetPackingWithPoles => OptimizationGoal::PackingDistance,
        DistributionMethod::OffsetAverageNeighbor => OptimizationGoal::AverageNeighborDistance,
        DistributionMethod::LatitudeLongitude => OptimizationGoal::EqualArea,
    }
}

/// Stable Godot-facing index of each method.
pub open spec fn method_index(method: DistributionMethod) -> int {
    match method {
        DistributionMethod::CanonicalMidpoint => 0,
        DistributionMethod::Canonical => 1,
        DistributionMethod::OffsetPacking => 2,
        DistributionMethod::OffsetPackingWithPoles => 3,
        DistributionMethod::OffsetAverageNeighbor => 4,
        DistributionMethod::LatitudeLongitude => 5,
    }
}

impl Default for DistributionMethod {
    fn default() -> (method: DistributionMethod)
        ensures
            method == DistributionMethod::CanonicalMidpoint,
    {
        DistributionMethod::CanonicalMidpoint
    }
}

impl DistributionMethod {
    /// All available methods.
    pub const ALL: [DistributionMethod; 6] = [
        DistributionMethod::CanonicalMidpoint,
        DistributionMethod::Canonical,
        DistributionMethod::OffsetPacking,
        DistributionMethod::OffsetPackingWithPoles,
        DistributionMethod::OffsetAverageNeighbor,
        DistributionMethod::LatitudeLongitude,
    ];

    /// Human-readable method name.
    pub fn name(self) -> (name: &'static str)
        ensures
            name@ == method_name(self),
    {
        match self {
            DistributionMethod::Canonical => Canonical.name(),
            DistributionMethod::CanonicalMidpoint => CanonicalMidpoint.name(),
            DistributionMethod::OffsetPacking => OffsetPacking.name(),
            DistributionMethod::OffsetPackingWithPoles => OffsetPackingWithPoles.name(),
            DistributionMethod::OffsetAverageNeighbor => OffsetAverageNeighbor.name(),
            DistributionMethod::LatitudeLongitude => LatitudeLongitude.name(),
        }
    }

    /// Primary optimization goal.
    pub fn optimizes(self) -> (goal: OptimizationGoal)
        ensures
            goal == method_goal(self),
    {
        match self {
            DistributionMethod::Canonical => Canonical.optimizes(),
            DistributionMethod::CanonicalMidpoint => CanonicalMidpoint.optimizes(),
            DistributionMethod::OffsetPacking => OffsetPacking.optimizes(),
            DistributionMethod::OffsetPackingWithPoles => OffsetPackingWithPoles.optimizes(),
            DistributionMethod::OffsetAverageNeighbor => OffsetAverageNeighbor.optimizes(),
            DistributionMethod::LatitudeLongitude => LatitudeLongitude.optimizes(),
        }
    }

    /// Literature-backed purpose, advantages, disadvantages, and references.
    pub fn info(self) -> (info: MethodInfo)
        ensures
            info == method_info(self),
    {
        info_of(self)
    }

    /// Multi-line HUD description for this method.
    pub fn format_description(self) -> (text: String)
        ensures
            text@ == description_text(method_info(self), method_goal(self)),
    {
        self.info().format_description(self.optimizes())
    }

    /// Godot-facing index for this method.
    pub fn to_godot_index(self) -> (index: i32)
        ensures
            index == method_index(self),
    {
        match self {
            DistributionMethod::CanonicalMidpoint => 0,
            DistributionMethod::Canonical => 1,
            DistributionMethod::OffsetPacking => 2,
            DistributionMethod::OffsetPackingWithPoles => 3,
            DistributionMethod::OffsetAverageNeighbor => 4,
            DistributionMethod::LatitudeLongitude => 5,
        }
    }

    /// Resolve a Godot method index to a distribution method.
    pub fn from_godot_index(index: i32) -> (method: Option<DistributionMethod>)
        ensures
            method matches Some(m) ==> method_index(m) == index,
            method is Some <==> 0 <= index < 6,
    {
        match index {
            0 => Some(DistributionMethod::CanonicalMidpoint),
            1 => Some(DistributionMethod::Canonical),
            2 => Some(DistributionMethod::OffsetPacking),
            3 => Some(DistributionMethod::OffsetPackingWithPoles),
            4 => Some(DistributionMethod::OffsetAverageNeighbor),
            5 => Some(DistributionMethod::LatitudeLongitude),
            _ => None,
        }
    }
}

/// Converting a method to its Godot index and back gives the same method.
pub proof fn godot_index_round_trip(method: DistributionMethod)
    ensures
        0 <= method_index(method) < 6,
        forall|other: DistributionMethod| method_index(other) == method_index(method) ==> other == method,
{
}

/// No two methods share a name.
pub proof fn method_names_are_distinct(a: DistributionMethod, b: DistributionMethod)
    requires
        a != b,
    ensures
        method_name(a) != method_name(b),
{
    reveal_strlit("canonical_midpoint");
    reveal_strlit("canonical");
    reveal_strlit("offset_packing");
    reveal_strlit("offset_packing_with_poles");
    reveal_strlit("offset_average_neighbor");
    reveal_strlit("latitude_longitude");
    assert(method_name(a).len() != method_name(b).len() || method_name(a)[0] != method_name(b)[0]);
}

/// The method with index `index`, if there is one.
pub open spec fn method_with_index(index: i32) -> Option<DistributionMethod> {
    if index == 0 {
        Some(DistributionMethod::CanonicalMidpoint)
    } else if index == 1 {
        Some(DistributionMethod::Canonical)
    } else if index == 2 {
        Some(DistributionMethod::OffsetPacking)
    } else if index == 3 {
        Some(DistributionMethod::OffsetPackingWithPoles)
    } else if index == 4 {
        Some(DistributionMethod::OffsetAverageNeighbor)
    } else if index == 5 {
        Some(DistributionMethod::LatitudeLongitude)
    } else {
        None
    }
}

/// HUD description of the method with index `index`, or the empty string when the index
/// names no method.
pub fn method_description_for_index(index: i32) -> (text: String)
    ensures
        text@ == match method_with_index(index) {
            Some(m) => description_text(method_info(m), method_goal(m)),
            None => Seq::<char>::empty(),
        },
{
    let parsed = DistributionMethod::from_godot_index(index);
    assert(parsed == method_with_index(index));
    match parsed {
        Some(method) => method.format_description(),
        None => String::new(),
    }
}

} // verus!
