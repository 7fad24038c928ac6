//! Terrain queries on stable integer indices, as game engines pass them: terrain types by
//! their index (`Land` = 0, `Water` = 1, …) and border kinds by theirs (`Coastline` = 1).
//! Invalid indices give `-1`, `false` or are skipped, as the engine side expects.

use vstd::prelude::*;

use super::areas::{classify_site, kind_of_terrain};
use super::borders::{border_index, border_kind, border_kind_cases, classify_area_border, is_coastline_border, kind_above_sea, AreaBorderKind};
use super::types::{terrain_index, TerrainMap, TerrainType};

verus! {

/// The terrain type with index `index`, if there is one.
pub open spec fn terrain_at_index(index: i32) -> Option<TerrainType> {
    if index == 0 {
        Some(TerrainType::Land)
    } else if index == 1 {
        Some(TerrainType::Water)
    } else if index == 2 {
        Some(TerrainType::DeepWater)
    } else if index == 3 {
        Some(TerrainType::Mountain)
    } else if index == 4 {
        Some(TerrainType::Ice)
    } else if index == 5 {
        Some(TerrainType::IceMountain)
    } else {
        None
    }
}

/// Border kind indices between terrain types given by index, stated on the indices:
/// `0` (same type) exactly for equal indices, `1` (coastline) exactly when one side is
/// water (`1`) or deep water (`2`) and the other is not, `2` exactly for the two water
/// types, and `3` exactly for two different above-sea types (land, mountain, ice, ice
/// mountain).
pub proof fn border_indices_by_terrain_index(left: i32, right: i32)
    requires
        0 <= left < 6,
        0 <= right < 6,
    ensures
        ({
            let kind = border_index(border_kind(
                kind_of_terrain(terrain_at_index(left).unwrap()),
                kind_of_terrain(terrain_at_index(right).unwrap()),
            ));
            &&& (kind == 0 <==> left == right)
            &&& (kind == 1 <==> ((left == 1 || left == 2) != (right == 1 || right == 2)))
            &&& (kind == 2 <==> (left != right && (left == 1 || left == 2) && (right == 1 || right == 2)))
            &&& (kind == 3 <==> (left != right && left != 1 && left != 2 && right != 1 && right != 2))
        }),
{
    let l = kind_of_terrain(terrain_at_index(left).unwrap());
    let r = kind_of_terrain(terrain_at_index(right).unwrap());
    border_kind_cases(l, r);
}

/// Every index in `0..6` names the type whose index it is.
proof fn terrain_at_index_names_the_type(index: i32, parsed: Option<TerrainType>)
    requires
        parsed matches Some(t) ==> terrain_index(t) == index,
        parsed is Some <==> 0 <= index < 6,
    ensures
        parsed == terrain_at_index(index),
{
}

/// Index of the border kind between the cells of two terrain types given by index, or
/// `-1` when either index names no terrain type.
pub fn classify_border_between_terrain_types(left: i32, right: i32) -> (kind: i32)
    ensures
        kind == match (terrain_at_index(left), terrain_at_index(right)) {
            (Some(l), Some(r)) => border_index(border_kind(kind_of_terrain(l), kind_of_terrain(r))),
            _ => -1,
        },
        kind == -1 <==> !(0 <= left < 6 && 0 <= right < 6),
        0 <= left < 6 && 0 <= right < 6 ==> {
            &&& (kind == 0 <==> left == right)
            &&& (kind == 1 <==> ((left == 1 || left == 2) != (right == 1 || right == 2)))
            &&& (kind == 2 <==> (left != right && (left == 1 || left == 2) && (right == 1 || right == 2)))
            &&& (kind == 3 <==> (left != right && left != 1 && left != 2 && right != 1 && right != 2))
        },
{
    proof {
        if 0 <= left < 6 && 0 <= right < 6 {
            border_indices_by_terrain_index(left, right);
        }
    }
    let parsed_left = TerrainType::from_godot_index(left);
    let parsed_right = TerrainType::from_godot_index(right);
    proof {
        terrain_at_index_names_the_type(left, parsed_left);
        terrain_at_index_names_the_type(right, parsed_right);
    }
    match (parsed_left, parsed_right) {
        (Some(left_type), Some(right_type)) => {
            classify_area_border(classify_site(left_type), classify_site(right_type)).godot_index()
        },
        _ => -1,
    }
}

/// Whether the border between the cells of two terrain types given by index crosses sea
/// level; `false` when either index names no terrain type.
pub fn is_coastline_between_terrain_types(left: i32, right: i32) -> (coast: bool)
    ensures
        coast == match (terrain_at_index(left), terrain_at_index(right)) {
            (Some(l), Some(r)) => kind_above_sea(kind_of_terrain(l)) != kind_above_sea(kind_of_terrain(r)),
            _ => false,
        },
{
    let parsed_left = TerrainType::from_godot_index(left);
    let parsed_right = TerrainType::from_godot_index(right);
    proof {
        terrain_at_index_names_the_type(left, parsed_left);
        terrain_at_index_names_the_type(right, parsed_right);
    }
    match (parsed_left, parsed_right) {
        (Some(left_type), Some(right_type)) => is_coastline_border(classify_site(left_type), classify_site(right_type)),
        _ => false,
    }
}

/// The terrain types named by `values`, in order, skipping indices that name none.
pub open spec fn parsed_terrain_types(values: Seq<i32>) -> Seq<TerrainType>
    decreases values.len(),
{
    if values.len() == 0 {
        Seq::empty()
    } else {
        let rest = parsed_terrain_types(values.drop_last());
        match terrain_at_index(values.last()) {
            Some(t) => rest.push(t),
            None => rest,
        }
    }
}

/// Terrain types for a list of terrain indices; indices that name no type are skipped.
pub fn parse_allowed_terrain_types(values: &[i32]) -> (types: Vec<TerrainType>)
    ensures
        types@ == parsed_terrain_types(values@),
{
    let mut types: Vec<TerrainType> = Vec::new();
    let mut i: usize = 0;
    while i < values.len()
        invariant
            i <= values@.len(),
            types@ == parsed_terrain_types(values@.take(i as int)),
        decreases values@.len() - i,
    {
        proof {
            assert(values@.take(i as int + 1).drop_last() =~= values@.take(i as int));
        }
        let parsed = TerrainType::from_godot_index(values[i]);
        proof {
            terrain_at_index_names_the_type(values@[i as int], parsed);
        }
        if let Some(t) = parsed {
            types.push(t);
        }
        i = i + 1;
    }
    proof {
        assert(values@.take(values@.len() as int) =~= values@);
    }
    types
}

/// Whether boundary edge `edge_index` of a cell, whose edge border kinds are given by
/// index, is a coastline; `false` for an index outside the list.
pub fn is_coastline_edge(edge_border_kinds: &[i32], edge_index: i32) -> (coast: bool)
    ensures
        coast <==> 0 <= edge_index < edge_border_kinds@.len() && edge_border_kinds@[edge_index as int] == border_index(
            AreaBorderKind::Coastline,
        ),
{
    if edge_index < 0 {
        return false;
    }
    let index = edge_index as usize;
    if index >= edge_border_kinds.len() {
        return false;
    }
    edge_border_kinds[index] == AreaBorderKind::Coastline.godot_index()
}

/// Terrain type index at a vertex given by index, or `-1` when there is no terrain or the
/// index names no vertex.
pub fn terrain_type_index_at(terrain: Option<&TerrainMap>, vertex_index: i32) -> (index: i32)
    ensures
        index == match terrain {
            Some(map) => if 0 <= vertex_index < map@.len() {
                terrain_index(map@[vertex_index as int])
            } else {
                -1
            },
            None => -1,
        },
{
    if vertex_index < 0 {
        return -1;
    }
    match terrain {
        None => -1,
        Some(map) => {
            let index = vertex_index as usize;
            if index >= map.len() {
                return -1;
            }
            map.get(index).godot_index()
        },
    }
}

} // verus!
