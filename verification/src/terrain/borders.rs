//! Classification of Voronoi area borders for rendering and gameplay rules.

use vstd::prelude::*;

use super::areas::AreaKind;

verus! {

/// Semantic category of a border between two adjacent terrain areas.
#[derive(Debug, Clone, Copy, PartialEq, Eq, Hash, Structural)]
pub enum AreaBorderKind {
    /// Same terrain class on both sides.
    SameType,
    /// Coastline: above-sea terrain meets below-sea terrain.
    Coastline,
    /// Shallow water meets deep water.
    ShallowDeepWater,
    /// Two different above-sea kinds meet (land, mountain or ice).
    LandMountain,
}

/// Whether an area kind lies above sea level.
pub open spec fn kind_above_sea(kind: AreaKind) -> bool {
    match kind {
        AreaKind::Land | AreaKind::Mountain | AreaKind::Ice | AreaKind::IceMountain => true,
        AreaKind::Water | AreaKind::DeepWater => false,
    }
}

/// Border category between two area kinds.
pub open spec fn border_kind(left: AreaKind, right: AreaKind) -> AreaBorderKind {
    if left == right {
        AreaBorderKind::SameType
    } else if kind_above_sea(left) != kind_above_sea(right) {
        AreaBorderKind::Coastline
    } else if !kind_above_sea(left) {
        AreaBorderKind::ShallowDeepWater
    } else {
        AreaBorderKind::LandMountain
    }
}

/// Stable FFI index of a border kind.
pub open spec fn border_index(kind: AreaBorderKind) -> int {
    match kind {
        AreaBorderKind::SameType => 0,
        AreaBorderKind::Coastline => 1,
        AreaBorderKind::ShallowDeepWater => 2,
        AreaBorderKind::LandMountain => 3,
    }
}

impl AreaBorderKind {
    /// Stable index for Godot and other FFI consumers.
    pub fn godot_index(self) -> (index: i32)
        ensures
            index == border_index(self),
    {
        match self {
            AreaBorderKind::SameType => 0,
            AreaBorderKind::Coastline => 1,
            AreaBorderKind::ShallowDeepWater => 2,
            AreaBorderKind::LandMountain => 3,
        }
    }

    /// Parse a Godot/FFI border kind index.
    pub fn from_godot_index(index: i32) -> (parsed: Option<AreaBorderKind>)
        ensures
            parsed matches Some(kind) ==> border_index(kind) == index,
            parsed is Some <==> 0 <= index < 4,
    {
        match index {
            0 => Some(AreaBorderKind::SameType),
            1 => Some(AreaBorderKind::Coastline),
            2 => Some(AreaBorderKind::ShallowDeepWater),
            3 => Some(AreaBorderKind::LandMountain),
            _ => None,
        }
    }
}

/// Classify the border between two adjacent area kinds.
pub fn classify_area_border(left: AreaKind, right: AreaKind) -> (kind: AreaBorderKind)
    ensures
        kind == border_kind(left, right),
        kind == AreaBorderKind::SameType <==> left == right,
        kind == AreaBorderKind::Coastline <==> ((left == AreaKind::Water || left == AreaKind::DeepWater)
            != (right == AreaKind::Water || right == AreaKind::DeepWater)),
        kind == AreaBorderKind::ShallowDeepWater <==> (left != right
            && (left == AreaKind::Water || left == AreaKind::DeepWater)
            && (right == AreaKind::Water || right == AreaKind::DeepWater)),
        kind == AreaBorderKind::LandMountain <==> (left != right
            && left != AreaKind::Water && left != AreaKind::DeepWater
            && right != AreaKind::Water && right != AreaKind::DeepWater),
{
    proof {
        border_kind_cases(left, right);
    }
    if left == right {
        return AreaBorderKind::SameType;
    }
    let left_above = is_above_sea(left);
    let right_above = is_above_sea(right);
    if left_above != right_above {
        return AreaBorderKind::Coastline;
    }
    if is_below_sea(left) && is_below_sea(right) {
        return AreaBorderKind::ShallowDeepWater;
    }
    AreaBorderKind::LandMountain
}

/// Returns true when the border crosses sea level (land/mountain/ice vs water/deep water).
pub fn is_coastline_border(left: AreaKind, right: AreaKind) -> (coast: bool)
    ensures
        coast <==> kind_above_sea(left) != kind_above_sea(right),
{
    classify_area_border(left, right) == AreaBorderKind::Coastline
}

/// Whether the kind lies above sea level.
fn is_above_sea(kind: AreaKind) -> (above: bool)
    ensures
        above == kind_above_sea(kind),
{
    matches!(kind, AreaKind::Land | AreaKind::Mountain | AreaKind::Ice | AreaKind::IceMountain)
}

/// Whether the kind lies below sea level.
fn is_below_sea(kind: AreaKind) -> (below: bool)
    ensures
        below == !kind_above_sea(kind),
{
    matches!(kind, AreaKind::Water | AreaKind::DeepWater)
}

/// What each border category means, stated on the two kinds: the sides are the same
/// kind exactly for `SameType`; a coastline exactly when one side is water or deep water
/// and the other is not; `ShallowDeepWater` exactly when two different water kinds meet;
/// `LandMountain` exactly when two different above-sea kinds meet (land, mountain, ice or
/// ice mountain).
pub proof fn border_kind_cases(left: AreaKind, right: AreaKind)
    ensures
        border_kind(left, right) == AreaBorderKind::SameType <==> left == right,
        border_kind(left, right) == AreaBorderKind::Coastline <==> ((left == AreaKind::Water || left == AreaKind::DeepWater)
            != (right == AreaKind::Water || right == AreaKind::DeepWater)),
        border_kind(left, right) == AreaBorderKind::ShallowDeepWater <==> (left != right
            && (left == AreaKind::Water || left == AreaKind::DeepWater)
            && (right == AreaKind::Water || right == AreaKind::DeepWater)),
        border_kind(left, right) == AreaBorderKind::LandMountain <==> (left != right
            && left != AreaKind::Water && left != AreaKind::DeepWater
            && right != AreaKind::Water && right != AreaKind::DeepWater),
{
}

/// A border's category does not depend on which side is named first.
pub proof fn border_kind_is_symmetric(left: AreaKind, right: AreaKind)
    ensures
        border_kind(left, right) == border_kind(right, left),
{
}

/// Godot indices name border kinds one to one, each in `0..4`.
pub proof fn border_indices_are_one_to_one(a: AreaBorderKind, b: AreaBorderKind)
    ensures
        0 <= border_index(a) < 4,
        border_index(a) == border_index(b) ==> a == b,
{
}

} // verus!
