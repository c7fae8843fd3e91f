use vstd::prelude::*;
use crate::game::TurnState;
use crate::tiles::{
    BACKDROP_BLUE, BACKDROP_RED, UNIT_ARCHER, UNIT_BARBARIAN, UNIT_CLERIC, UNIT_KNIGHT, UNIT_WIZARD,
};
use crate::util::GridCoords;

verus! {

/// The side a unit or a spawn marker belongs to.
#[derive(Clone, Copy, Debug, Default, PartialEq, Eq, Structural)]
pub struct UnitAssociation {
    pub turn: TurnState,
}

/// Marks the side-coloured tile drawn under a unit.
#[derive(Clone, Copy, Debug, Default, PartialEq, Eq, Structural)]
pub struct Backdrop;

/// The side-coloured tile drawn under a unit, kept on the unit's cell.
#[derive(Clone, Copy, Debug, PartialEq, Eq, Structural)]
pub struct BackdropBundle {
    pub backdrop: Backdrop,
    pub position: GridCoords,
    pub texture_index: usize,
}

pub open spec fn backdrop_of(turn_state: TurnState, grid_coords: GridCoords) -> BackdropBundle {
    BackdropBundle {
        backdrop: Backdrop,
        position: grid_coords,
        texture_index: match turn_state {
            TurnState::Player1 => BACKDROP_BLUE,
            TurnState::Player2 => BACKDROP_RED,
        },
    }
}

impl BackdropBundle {
    /// Blue for the first side, red for the second.
    pub fn new(turn_state: TurnState, grid_coords: GridCoords) -> (r: BackdropBundle)
        ensures
            r == backdrop_of(turn_state, grid_coords),
    {
        BackdropBundle {
            backdrop: Backdrop,
            position: grid_coords,
            texture_index: match turn_state {
                TurnState::Player1 => BACKDROP_BLUE,
                TurnState::Player2 => BACKDROP_RED,
            },
        }
    }
}

/// The kinds of unit; they differ only in sprite and movement budget.
#[derive(Clone, Copy, Debug, PartialEq, Eq, Structural)]
pub enum UnitSpawnTypes {
    Wizard,
    Archer,
    Knight,
    Barbarian,
    Cleric,
}

/// The movement budget of a kind: six, but ten for archers.
pub open spec fn max_move_cost_of(kind: UnitSpawnTypes) -> usize {
    match kind {
        UnitSpawnTypes::Archer => 10,
        _ => 6,
    }
}

pub open spec fn texture_index_of(kind: UnitSpawnTypes) -> usize {
    match kind {
        UnitSpawnTypes::Wizard => UNIT_WIZARD,
        UnitSpawnTypes::Archer => UNIT_ARCHER,
        UnitSpawnTypes::Knight => UNIT_KNIGHT,
        UnitSpawnTypes::Barbarian => UNIT_BARBARIAN,
        UnitSpawnTypes::Cleric => UNIT_CLERIC,
    }
}

/// A unit type's stats.
pub trait UnitType {
    /// The kind this type stands for.
    spec fn kind() -> UnitSpawnTypes;

    fn get_texture_index() -> (r: usize)
        ensures
            r == texture_index_of(Self::kind()),
    ;

    fn get_max_move_cost() -> (r: usize)
        ensures
            r == max_move_cost_of(Self::kind()),
    ;
}

#[derive(Clone, Copy, Debug, Default, PartialEq, Eq)]
pub struct Wizard;

#[derive(Clone, Copy, Debug, Default, PartialEq, Eq)]
pub struct Archer;

#[derive(Clone, Copy, Debug, Default, PartialEq, Eq)]
pub struct Barbarian;

#[derive(Clone, Copy, Debug, Default, PartialEq, Eq)]
pub struct Knight;

#[derive(Clone, Copy, Debug, Default, PartialEq, Eq)]
pub struct Cleric;

impl UnitType for Wizard {
    open spec fn kind() -> UnitSpawnTypes {
        UnitSpawnTypes::Wizard
    }

    fn get_texture_index() -> usize {
        UNIT_WIZARD
    }

    fn get_max_move_cost() -> usize {
        6
    }
}

impl UnitType for Archer {
    open spec fn kind() -> UnitSpawnTypes {
        UnitSpawnTypes::Archer
    }

    fn get_texture_index() -> usize {
        UNIT_ARCHER
    }

    fn get_max_move_cost() -> usize {
        10
    }
}

impl UnitType for Barbarian {
    open spec fn kind() -> UnitSpawnTypes {
        UnitSpawnTypes::Barbarian
    }

    fn get_texture_index() -> usize {
        UNIT_BARBARIAN
    }

    fn get_max_move_cost() -> usize {
        6
    }
}

impl UnitType for Knight {
    open spec fn kind() -> UnitSpawnTypes {
        UnitSpawnTypes::Knight
    }

    fn get_texture_index() -> usize {
        UNIT_KNIGHT
    }

    fn get_max_move_cost() -> usize {
        6
    }
}

impl UnitType for Cleric {
    open spec fn kind() -> UnitSpawnTypes {
        UnitSpawnTypes::Cleric
    }

    fn get_texture_index() -> usize {
        UNIT_CLERIC
    }

    fn get_max_move_cost() -> usize {
        6
    }
}

/// A live unit on the grid.
#[derive(Clone, Copy, Debug, PartialEq, Eq, Structural)]
pub struct Unit {
    pub health: i32,
    pub max_move_cost: usize,
    pub moved: bool,
    pub backdrop: BackdropBundle,
    pub position: GridCoords,
    pub association: UnitAssociation,
    pub kind: UnitSpawnTypes,
}

pub open spec fn unit_of(kind: UnitSpawnTypes, grid_coords: GridCoords, association: TurnState) -> Unit {
    Unit {
        health: 30,
        max_move_cost: max_move_cost_of(kind),
        moved: false,
        backdrop: backdrop_of(association, grid_coords),
        position: grid_coords,
        association: UnitAssociation { turn: association },
        kind,
    }
}

impl UnitSpawnTypes {
    /// The movement budget of this kind.
    pub fn max_move_cost(&self) -> (r: usize)
        ensures
            r == max_move_cost_of(*self),
    {
        match self {
            UnitSpawnTypes::Wizard => Wizard::get_max_move_cost(),
            UnitSpawnTypes::Archer => Archer::get_max_move_cost(),
            UnitSpawnTypes::Knight => Knight::get_max_move_cost(),
            UnitSpawnTypes::Barbarian => Barbarian::get_max_move_cost(),
            UnitSpawnTypes::Cleric => Cleric::get_max_move_cost(),
        }
    }

    /// The sprite of this kind.
    pub fn texture_index(&self) -> (r: usize)
        ensures
            r == texture_index_of(*self),
    {
        match self {
            UnitSpawnTypes::Wizard => Wizard::get_texture_index(),
            UnitSpawnTypes::Archer => Archer::get_texture_index(),
            UnitSpawnTypes::Knight => Knight::get_texture_index(),
            UnitSpawnTypes::Barbarian => Barbarian::get_texture_index(),
            UnitSpawnTypes::Cleric => Cleric::get_texture_index(),
        }
    }

    /// A fresh unit of this kind for a side, on a cell, with its backdrop.
    pub fn create_bundle(&self, grid_coords: GridCoords, association: TurnState) -> (r: Unit)
        ensures
            r == unit_of(*self, grid_coords, association),
    {
        create_unit(*self, grid_coords, association)
    }
}

/// A fresh unit: full health, not yet moved, with its kind's budget and its side's backdrop.
pub fn create_unit(kind: UnitSpawnTypes, grid_coords: GridCoords, association: TurnState) -> (r: Unit)
    ensures
        r == unit_of(kind, grid_coords, association),
{
    Unit {
        health: 30,
        max_move_cost: kind.max_move_cost(),
        moved: false,
        backdrop: BackdropBundle::new(association, grid_coords),
        position: grid_coords,
        association: UnitAssociation { turn: association },
        kind,
    }
}

/// Marks a cell where a unit of a side starts.
#[derive(Clone, Copy, Debug, PartialEq, Eq, Structural)]
pub struct UnitSpawnLocation {
    pub association: UnitAssociation,
    pub grid_coords: GridCoords,
}

/// The side of a spawn marker, from the first letter of its identifier: blue markers belong to the
/// first side and red ones to the second.
pub fn association_from_identifier(first: char) -> (r: Option<UnitAssociation>)
    ensures
        r == (if first == 'B' {
            Some(UnitAssociation { turn: TurnState::Player1 })
        } else if first == 'R' {
            Some(UnitAssociation { turn: TurnState::Player2 })
        } else {
            None
        }),
{
    if first == 'B' {
        Some(UnitAssociation { turn: TurnState::Player1 })
    } else if first == 'R' {
        Some(UnitAssociation { turn: TurnState::Player2 })
    } else {
        None
    }
}

/// The kinds each side still has to place; units are taken from the back.
#[derive(Clone, Debug)]
pub struct UnitSpawnQueues {
    pub player1: Vec<UnitSpawnTypes>,
    pub player2: Vec<UnitSpawnTypes>,
}

pub open spec fn default_queue() -> Seq<UnitSpawnTypes> {
    seq![
        UnitSpawnTypes::Knight,
        UnitSpawnTypes::Knight,
        UnitSpawnTypes::Barbarian,
        UnitSpawnTypes::Archer,
        UnitSpawnTypes::Archer,
    ]
}

impl Default for UnitSpawnQueues {
    /// Each side places two knights, a barbarian and two archers.
    fn default() -> (r: UnitSpawnQueues)
        ensures
            r.player1@ == default_queue(),
            r.player2@ == default_queue(),
    {
        let player1 = vec![
            UnitSpawnTypes::Knight,
            UnitSpawnTypes::Knight,
            UnitSpawnTypes::Barbarian,
            UnitSpawnTypes::Archer,
            UnitSpawnTypes::Archer,
        ];
        let player2 = vec![
            UnitSpawnTypes::Knight,
            UnitSpawnTypes::Knight,
            UnitSpawnTypes::Barbarian,
            UnitSpawnTypes::Archer,
            UnitSpawnTypes::Archer,
        ];
        assert(player1@ =~= default_queue());
        assert(player2@ =~= default_queue());
        UnitSpawnQueues { player1, player2 }
    }
}

/// The units of each side, by index in the registry.
#[derive(Clone, Debug)]
pub struct UnitAssociations {
    pub player1: Vec<usize>,
    pub player2: Vec<usize>,
}

impl UnitAssociations {
    pub open spec fn side(&self, turn_state: TurnState) -> Seq<usize> {
        match turn_state {
            TurnState::Player1 => self.player1@,
            TurnState::Player2 => self.player2@,
        }
    }

    pub fn new() -> (r: UnitAssociations)
        ensures
            r.side(TurnState::Player1).len() == 0,
            r.side(TurnState::Player2).len() == 0,
    {
        UnitAssociations { player1: Vec::new(), player2: Vec::new() }
    }

    /// Whether a unit belongs to a side.
    pub fn contains(&self, entity: usize, turn_state: TurnState) -> (r: bool)
        ensures
            r == self.side(turn_state).contains(entity),
    {
        let v = match turn_state {
            TurnState::Player1 => &self.player1,
            TurnState::Player2 => &self.player2,
        };
        let mut i: usize = 0;
        while i < v.len()
            invariant
                i <= v@.len(),
                v@ == self.side(turn_state),
                forall|j: int| 0 <= j < i ==> v@[j] != entity,
            decreases v.len() - i,
        {
            if v[i] == entity {
                return true;
            }
            i = i + 1;
        }
        false
    }

    /// Records that a unit belongs to a side.
    pub fn insert(&mut self, entity: usize, turn_state: TurnState)
        ensures
            final(self).side(turn_state) == old(self).side(turn_state).push(entity),
            final(self).side(crate::game::other_side(turn_state)) == old(self).side(
                crate::game::other_side(turn_state),
            ),
    {
        match turn_state {
            TurnState::Player1 => self.player1.push(entity),
            TurnState::Player2 => self.player2.push(entity),
        }
    }
}

} // verus!
