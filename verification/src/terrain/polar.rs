//! Turning temperate terrain into polar ice over flooded caps.

use vstd::prelude::*;

use super::types::TerrainType;

verus! {

/// Ice type that temperate terrain `t` becomes inside a polar cap.
pub open spec fn frozen(t: TerrainType) -> TerrainType {
    match t {
        TerrainType::Mountain => TerrainType::IceMountain,
        _ => TerrainType::Ice,
    }
}

/// Replace temperate terrain by ice on every vertex that belongs to the north or the south
/// cap: mountains become ice mountains and everything else becomes ice.
pub fn apply_cap_membership(temperate: &[TerrainType], north: &[bool], south: &[bool]) -> (terrain: Vec<TerrainType>)
    requires
        north@.len() >= temperate@.len(),
        south@.len() >= temperate@.len(),
    ensures
        terrain@.len() == temperate@.len(),
        forall|i: int| 0 <= i < temperate@.len() ==> #[trigger] terrain@[i] == if north@[i] || south@[i] {
            frozen(temperate@[i])
        } else {
            temperate@[i]
        },
        forall|i: int| 0 <= i < temperate@.len() && (north@[i] || south@[i]) ==> {
            &&& (#[trigger] terrain@[i] == TerrainType::Ice || terrain@[i] == TerrainType::IceMountain)
            &&& (terrain@[i] == TerrainType::IceMountain <==> temperate@[i] == TerrainType::Mountain)
        },
        forall|i: int| 0 <= i < temperate@.len() && !north@[i] && !south@[i] ==> #[trigger] terrain@[i] == temperate@[i],
{
    let mut terrain: Vec<TerrainType> = Vec::new();
    let mut index: usize = 0;
    while index < temperate.len()
        invariant
            index <= temperate@.len(),
            north@.len() >= temperate@.len(),
            south@.len() >= temperate@.len(),
            terrain@.len() == index,
            forall|i: int| 0 <= i < index ==> #[trigger] terrain@[i] == if north@[i] || south@[i] {
                frozen(temperate@[i])
            } else {
                temperate@[i]
            },
        decreases temperate@.len() - index,
    {
        let t = temperate[index];
        if !north[index] && !south[index] {
            terrain.push(t);
        } else {
            match t {
                TerrainType::Mountain => terrain.push(TerrainType::IceMountain),
                _ => terrain.push(TerrainType::Ice),
            }
        }
        index = index + 1;
    }
    proof {
        assert forall|i: int| 0 <= i < temperate@.len() && (north@[i] || south@[i]) implies {
            &&& (#[trigger] terrain@[i] == TerrainType::Ice || terrain@[i] == TerrainType::IceMountain)
            &&& (terrain@[i] == TerrainType::IceMountain <==> temperate@[i] == TerrainType::Mountain)
        } by {
            frozen_is_ice(temperate@[i]);
        }
    }
    terrain
}

/// Freezing turns every terrain type into ice: mountains into ice mountains and every
/// other type into plain ice.
pub proof fn frozen_is_ice(t: TerrainType)
    ensures
        frozen(t) == TerrainType::Ice || frozen(t) == TerrainType::IceMountain,
        frozen(t) == TerrainType::IceMountain <==> t == TerrainType::Mountain,
{
}

/// Cap freezing, stated on its results: a vertex inside the north or the south cap ends
/// up as ice, and as an ice mountain exactly when it was a mountain; a vertex outside
/// both caps keeps its temperate type.
pub proof fn cap_vertices_become_ice(
    temperate: Seq<TerrainType>,
    north: Seq<bool>,
    south: Seq<bool>,
    terrain: Seq<TerrainType>,
    i: int,
)
    requires
        0 <= i < temperate.len(),
        terrain.len() == temperate.len(),
        terrain[i] == if north[i] || south[i] { frozen(temperate[i]) } else { temperate[i] },
    ensures
        north[i] || south[i] ==> terrain[i] == TerrainType::Ice || terrain[i] == TerrainType::IceMountain,
        north[i] || south[i] ==> (terrain[i] == TerrainType::IceMountain <==> temperate[i] == TerrainType::Mountain),
        !north[i] && !south[i] ==> terrain[i] == temperate[i],
{
    frozen_is_ice(temperate[i]);
}

} // verus!
