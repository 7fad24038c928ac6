//! Terrain type definitions and per-vertex terrain storage.

use vstd::prelude::*;

verus! {

/// Side of sea level used when reassigning vertices in invalid terrain components.
#[derive(Debug, Clone, Copy, PartialEq, Eq, Hash, Structural)]
pub enum ElevationBand {
    /// At or below sea level (`sample < 0` for noise-driven assigners).
    BelowSeaLevel,
    /// Above sea level (`sample >= 0` for noise-driven assigners).
    AboveSeaLevel,
}

/// Terrain classification for a lattice vertex.
#[derive(Debug, Clone, Copy, PartialEq, Eq, Hash, Structural)]
pub enum TerrainType {
    /// Dry land terrain.
    Land,
    /// Shallow water (below sea level, above the deep-water cutoff).
    Water,
    /// Deep water (most negative noise samples below sea level).
    DeepWater,
    /// Mountain terrain.
    Mountain,
    /// Polar lowland ice.
    Ice,
    /// Polar highland ice.
    IceMountain,
}

/// Stable FFI index of a terrain type (`Land`=0, `Water`=1, …).
pub open spec fn terrain_index(t: TerrainType) -> int {
    match t {
        TerrainType::Land => 0,
        TerrainType::Water => 1,
        TerrainType::DeepWater => 2,
        TerrainType::Mountain => 3,
        TerrainType::Ice => 4,
        TerrainType::IceMountain => 5,
    }
}

/// Elevation band that a terrain type belongs to.
pub open spec fn band_of(t: TerrainType) -> ElevationBand {
    match t {
        TerrainType::Water | TerrainType::DeepWater => ElevationBand::BelowSeaLevel,
        _ => ElevationBand::AboveSeaLevel,
    }
}

/// The six terrain types in their stable order.
pub open spec fn all_terrain_types() -> Seq<TerrainType> {
    seq![
        TerrainType::Land,
        TerrainType::Water,
        TerrainType::DeepWater,
        TerrainType::Mountain,
        TerrainType::Ice,
        TerrainType::IceMountain,
    ]
}

impl ElevationBand {
    /// Terrain types that belong to this elevation band.
    pub fn terrain_types(self) -> (types: &'static [TerrainType])
        ensures
            forall|t: TerrainType| types@.contains(t) <==> band_of(t) == self,
            self == ElevationBand::BelowSeaLevel ==> types@ == seq![TerrainType::Water, TerrainType::DeepWater],
            self == ElevationBand::AboveSeaLevel ==> types@ == seq![
                TerrainType::Land,
                TerrainType::Mountain,
                TerrainType::Ice,
                TerrainType::IceMountain,
            ],
    {
        match self {
            ElevationBand::BelowSeaLevel => &[TerrainType::Water, TerrainType::DeepWater],
            ElevationBand::AboveSeaLevel => &[
                TerrainType::Land,
                TerrainType::Mountain,
                TerrainType::Ice,
                TerrainType::IceMountain,
            ],
        }
    }
}

impl TerrainType {
    /// All terrain variants in a stable order.
    pub const ALL: [TerrainType; 6] = [
        TerrainType::Land,
        TerrainType::Water,
        TerrainType::DeepWater,
        TerrainType::Mountain,
        TerrainType::Ice,
        TerrainType::IceMountain,
    ];

    /// Stable index for Godot and other FFI consumers (`Land`=0, `Water`=1, …).
    pub fn godot_index(self) -> (index: i32)
        ensures
            index == terrain_index(self),
    {
        match self {
            TerrainType::Land => 0,
            TerrainType::Water => 1,
            TerrainType::DeepWater => 2,
            TerrainType::Mountain => 3,
            TerrainType::Ice => 4,
            TerrainType::IceMountain => 5,
        }
    }

    /// Parse a Godot/FFI terrain type index.
    pub fn from_godot_index(index: i32) -> (parsed: Option<TerrainType>)
        ensures
            parsed matches Some(t) ==> terrain_index(t) == index,
            parsed is Some <==> 0 <= index < 6,
    {
        match index {
            0 => Some(TerrainType::Land),
            1 => Some(TerrainType::Water),
            2 => Some(TerrainType::DeepWater),
            3 => Some(TerrainType::Mountain),
            4 => Some(TerrainType::Ice),
            5 => Some(TerrainType::IceMountain),
            _ => None,
        }
    }

    /// Elevation band for assigners that do not expose per-vertex noise samples.
    pub fn elevation_band(self) -> (band: ElevationBand)
        ensures
            band == band_of(self),
    {
        match self {
            TerrainType::Water | TerrainType::DeepWater => ElevationBand::BelowSeaLevel,
            TerrainType::Land | TerrainType::Mountain | TerrainType::Ice | TerrainType::IceMountain => {
                ElevationBand::AboveSeaLevel
            },
        }
    }
}

/// Terrain assignment for every vertex in a surface graph.
#[derive(Debug, Clone, PartialEq, Eq)]
pub struct TerrainMap {
    terrain: Vec<TerrainType>,
}

impl View for TerrainMap {
    type V = Seq<TerrainType>;

    closed spec fn view(&self) -> Seq<TerrainType> {
        self.terrain@
    }
}

impl TerrainMap {
    /// Build a terrain map with one entry per graph vertex.
    pub fn new(terrain: Vec<TerrainType>) -> (map: TerrainMap)
        ensures
            map@ == terrain@,
    {
        TerrainMap { terrain }
    }

    /// Number of vertices in the map.
    pub fn len(&self) -> (count: usize)
        ensures
            count == self@.len(),
    {
        self.terrain.len()
    }

    /// Returns true when the map contains no vertices.
    pub fn is_empty(&self) -> (empty: bool)
        ensures
            empty <==> self@.len() == 0,
    {
        self.terrain.len() == 0
    }

    /// Terrain type at `index`.
    pub fn get(&self, index: usize) -> (t: TerrainType)
        requires
            index < self@.len(),
        ensures
            t == self@[index as int],
    {
        self.terrain[index]
    }

    /// All terrain assignments in vertex-index order.
    pub fn as_slice(&self) -> (slice: &[TerrainType])
        ensures
            slice@ == self@,
    {
        self.terrain.as_slice()
    }
}

/// Godot indices name terrain types one to one: every type has an index in `0..6`, no
/// two types share one, and `ALL` lists the types in index order, each once.
pub proof fn terrain_indices_are_one_to_one(a: TerrainType, b: TerrainType)
    ensures
        0 <= terrain_index(a) < 6,
        terrain_index(a) == terrain_index(b) ==> a == b,
        all_terrain_types()[terrain_index(a)] == a,
        all_terrain_types().len() == 6,
        all_terrain_types().no_duplicates(),
{
}

} // verus!
