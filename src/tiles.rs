use vstd::prelude::*;
use crate::util::GridCoords;

verus! {

pub const TILESET_WIDTH: usize = 30;

pub const TILESET_HEIGHT: usize = 11;

pub const EMPTY: usize = 6 * TILESET_WIDTH + 5;

// grass variations
pub const GRASS: usize = 0;

pub const GRASS_TUFTS: usize = 1;

pub const GRASS_FLOWERS: usize = 2;

// arrow variations; the second side's glyphs follow each of these four columns later
pub const ARROW_BODY_V: usize = 3 * TILESET_WIDTH + 4;

pub const ARROW_BODY_H: usize = 2 * TILESET_WIDTH + 6;

pub const ARROW_BODY_UL: usize = 3 * TILESET_WIDTH + 5;

pub const ARROW_BODY_UR: usize = 3 * TILESET_WIDTH + 6;

pub const ARROW_BODY_DL: usize = 4 * TILESET_WIDTH + 5;

pub const ARROW_BODY_DR: usize = 4 * TILESET_WIDTH + 6;

pub const ARROW_HEAD_L: usize = 2 * TILESET_WIDTH + 5;

pub const ARROW_HEAD_R: usize = 2 * TILESET_WIDTH + 7;

pub const ARROW_HEAD_U: usize = 2 * TILESET_WIDTH + 4;

pub const ARROW_HEAD_D: usize = 4 * TILESET_WIDTH + 4;

// highlight and zone variations
pub const CURSOR: usize = 3 * TILESET_WIDTH + 7;

pub const ZONE_MOVE: usize = 4 * TILESET_WIDTH + 7;

// terrain variations
pub const FOREST_LIGHT: usize = 5 * TILESET_WIDTH + 4;

pub const FOREST_HEAVY: usize = 6 * TILESET_WIDTH + 4;

pub const MOUNTAINS: usize = 5 * TILESET_WIDTH + 5;

// side backdrops
pub const BACKDROP_BLUE: usize = 5 * TILESET_WIDTH + 6;

pub const BACKDROP_RED: usize = 5 * TILESET_WIDTH + 7;

// units
pub const UNIT_WIZARD: usize = 7 * TILESET_WIDTH + 19;

pub const UNIT_ARCHER: usize = 7 * TILESET_WIDTH + 20;

pub const UNIT_BARBARIAN: usize = 7 * TILESET_WIDTH + 22;

pub const UNIT_KNIGHT: usize = 8 * TILESET_WIDTH + 19;

pub const UNIT_CLERIC: usize = 8 * TILESET_WIDTH + 23;

/// The atlas index of the sprite at a column and row of the tileset.
pub fn index(col: usize, row: usize) -> (r: usize)
    requires
        row * TILESET_WIDTH + col <= usize::MAX,
    ensures
        r == row * TILESET_WIDTH + col,
{
    row * TILESET_WIDTH + col
}

/// Marks water cells.
#[derive(Clone, Copy, Debug, Default, PartialEq, Eq)]
pub struct Watery;

#[derive(Clone, Copy, Debug, Default, PartialEq, Eq)]
pub struct WateryBundle {
    pub watery: Watery,
}

/// Marks grass cells.
#[derive(Clone, Copy, Debug, Default, PartialEq, Eq)]
pub struct Grassy;

#[derive(Clone, Copy, Debug, Default, PartialEq, Eq)]
pub struct GrassyBundle {
    pub grassy: Grassy,
}

/// Marks mountain cells.
#[derive(Clone, Copy, Debug, Default, PartialEq, Eq)]
pub struct Mountainous;

#[derive(Clone, Copy, Debug, Default, PartialEq, Eq)]
pub struct MountainousBundle {
    pub mountainous: Mountainous,
}

/// Marks forest cells.
#[derive(Clone, Copy, Debug, Default, PartialEq, Eq)]
pub struct Forested;

#[derive(Clone, Copy, Debug, Default, PartialEq, Eq)]
pub struct ForestedBundle {
    pub forested: Forested,
}

/// The terrain tag of a level cell, as the level's integer grid layer encodes it.
#[derive(Clone, Copy, Debug, PartialEq, Eq, Structural)]
pub enum TerrainKind {
    Watery,
    Grassy,
    Mountainous,
    Forested,
}

/// The registration of the level's integer grid values as terrain tags.
#[derive(Clone, Copy, Debug, Default, PartialEq, Eq)]
pub struct TilesPlugin;

pub open spec fn int_cell_kind(value: i32) -> Option<TerrainKind> {
    if value == 1 {
        Some(TerrainKind::Watery)
    } else if value == 2 {
        Some(TerrainKind::Grassy)
    } else if value == 3 {
        Some(TerrainKind::Mountainous)
    } else if value == 4 {
        Some(TerrainKind::Forested)
    } else {
        None
    }
}

impl TilesPlugin {
    /// The terrain tag registered for an integer grid value, if any.
    pub fn int_cell_kind(&self, value: i32) -> (r: Option<TerrainKind>)
        ensures
            r == int_cell_kind(value),
    {
        match value {
            1 => Some(TerrainKind::Watery),
            2 => Some(TerrainKind::Grassy),
            3 => Some(TerrainKind::Mountainous),
            4 => Some(TerrainKind::Forested),
            _ => None,
        }
    }
}

/// Movement class of a cell.
#[derive(Clone, Copy, Debug, PartialEq, Eq, Structural)]
pub enum TerrainClass {
    Open,
    Difficult,
    Impassable,
}

/// The cells of a level by terrain tag, as seen by the rules.
pub struct TerrainView {
    pub watery: Seq<GridCoords>,
    pub grassy: Seq<GridCoords>,
    pub mountainous: Seq<GridCoords>,
    pub forested: Seq<GridCoords>,
}

/// The cells of a level by terrain tag, collected once the level has loaded.
#[derive(Clone, Debug)]
pub struct TileTypes {
    pub watery: Vec<GridCoords>,
    pub grassy: Vec<GridCoords>,
    pub mountainous: Vec<GridCoords>,
    pub forested: Vec<GridCoords>,
}

impl View for TileTypes {
    type V = TerrainView;

    open spec fn view(&self) -> TerrainView {
        TerrainView {
            watery: self.watery@,
            grassy: self.grassy@,
            mountainous: self.mountainous@,
            forested: self.forested@,
        }
    }
}

/// Grass is open ground and forest is difficult; every other cell, tagged or not, is impassable.
pub open spec fn terrain_class(t: TerrainView, g: GridCoords) -> TerrainClass {
    if t.grassy.contains(g) {
        TerrainClass::Open
    } else if t.forested.contains(g) {
        TerrainClass::Difficult
    } else {
        TerrainClass::Impassable
    }
}

pub open spec fn passable(t: TerrainView, g: GridCoords) -> bool {
    terrain_class(t, g) != TerrainClass::Impassable
}

/// The cost of stepping onto a cell: one for open ground, two for difficult ground.
pub open spec fn step_cost(t: TerrainView, g: GridCoords) -> int {
    match terrain_class(t, g) {
        TerrainClass::Open => 1,
        TerrainClass::Difficult => 2,
        TerrainClass::Impassable => 0,
    }
}

fn holds(cells: &Vec<GridCoords>, g: GridCoords) -> (r: bool)
    ensures
        r == cells@.contains(g),
{
    let mut i: usize = 0;
    while i < cells.len()
        invariant
            i <= cells.len(),
            forall|j: int| 0 <= j < i ==> cells@[j] != g,
        decreases cells.len() - i,
    {
        if cells[i] == g {
            return true;
        }
        i = i + 1;
    }
    false
}

impl TileTypes {
    /// A level with no tagged cells: every cell is impassable.
    pub fn new() -> (r: TileTypes)
        ensures
            r@.watery.len() == 0,
            r@.grassy.len() == 0,
            r@.mountainous.len() == 0,
            r@.forested.len() == 0,
    {
        TileTypes { watery: Vec::new(), grassy: Vec::new(), mountainous: Vec::new(), forested: Vec::new() }
    }

    /// Tags one more cell.
    pub fn insert(&mut self, kind: TerrainKind, g: GridCoords)
        ensures
            final(self)@.watery == (if kind == TerrainKind::Watery { old(self)@.watery.push(g) } else { old(self)@.watery }),
            final(self)@.grassy == (if kind == TerrainKind::Grassy { old(self)@.grassy.push(g) } else { old(self)@.grassy }),
            final(self)@.mountainous == (if kind == TerrainKind::Mountainous { old(self)@.mountainous.push(g) } else { old(self)@.mountainous }),
            final(self)@.forested == (if kind == TerrainKind::Forested { old(self)@.forested.push(g) } else { old(self)@.forested }),
    {
        match kind {
            TerrainKind::Watery => self.watery.push(g),
            TerrainKind::Grassy => self.grassy.push(g),
            TerrainKind::Mountainous => self.mountainous.push(g),
            TerrainKind::Forested => self.forested.push(g),
        }
    }

    /// The movement class of a cell.
    pub fn classify(&self, g: GridCoords) -> (r: TerrainClass)
        ensures
            r == terrain_class(self@, g),
    {
        if holds(&self.grassy, g) {
            TerrainClass::Open
        } else if holds(&self.forested, g) {
            TerrainClass::Difficult
        } else {
            TerrainClass::Impassable
        }
    }
}

} // verus!
