use vstd::prelude::*;
use crate::arrows::{
    arrow_path, calculate_moveable_region, is_arrow_path, lemma_region_forest,
    moveable_region_of, region_wf, unique_nodes, ArrowChunk, ArrowHead, MoveableRegion,
    MovementZone, MAXIMUM_COST,
};
use crate::cursor::{Cursor, Targeted};
use crate::input::{axis, MovementInput};
use crate::tiles::TileTypes;
use crate::units::{create_unit, unit_of, Unit, UnitAssociations, UnitSpawnLocation, UnitSpawnQueues, UnitSpawnTypes};
use crate::util::{offset, GridCoords};

verus! {

/// The side whose turn it is.
#[derive(Clone, Copy, Debug, Default, PartialEq, Eq, Hash, Structural)]
pub enum TurnState {
    #[default]
    Player1,
    Player2,
}

/// Whether the player moves the cursor or draws a path for a selected unit.
#[derive(Clone, Copy, Debug, Default, PartialEq, Eq, Hash, Structural)]
pub enum GameState {
    #[default]
    CursorMovement,
    ArrowMovement,
}

pub open spec fn other_side(t: TurnState) -> TurnState {
    match t {
        TurnState::Player1 => TurnState::Player2,
        TurnState::Player2 => TurnState::Player1,
    }
}

impl TurnState {
    /// The side that plays after this one.
    pub fn other(&self) -> (r: TurnState)
        ensures
            r == other_side(*self),
    {
        match self {
            TurnState::Player1 => TurnState::Player2,
            TurnState::Player2 => TurnState::Player1,
        }
    }
}


/// The whole state of a match: terrain, units, whose turn it is, and the path being drawn.
#[derive(Clone, Debug)]
pub struct Game {
    pub tiles: TileTypes,
    pub units: Vec<Unit>,
    pub associations: UnitAssociations,
    pub turn: TurnState,
    pub state: GameState,
    pub cursor: Cursor,
    pub targeted: Option<Targeted>,
    pub arrow_head: ArrowHead,
    pub region: MoveableRegion,
    pub arrows: Vec<ArrowChunk>,
    pub zones: Vec<MovementZone>,
}

/// The index of the first unit standing on a cell.
pub open spec fn unit_at_spec(units: Seq<Unit>, pos: GridCoords) -> Option<int> {
    if exists|i: int| 0 <= i < units.len() && units[i].position == pos {
        Some(
            choose|i: int|
                0 <= i < units.len() && units[i].position == pos && forall|j: int|
                    0 <= j < i ==> units[j].position != pos,
        )
    } else {
        None
    }
}

/// The highlighted cells of a region, one per cell in the order reached.
pub open spec fn zones_of(region: MoveableRegion) -> Seq<MovementZone> {
    region.entries@.map_values(|e: crate::arrows::RegionEntry| MovementZone { position: e.node })
}

/// Units, side index, turn and terrain are the same in both states.
pub open spec fn same_registry(a: Game, b: Game) -> bool {
    &&& a.units@ == b.units@
    &&& a.associations.player1@ == b.associations.player1@
    &&& a.associations.player2@ == b.associations.player2@
    &&& a.turn == b.turn
    &&& a.tiles@ == b.tiles@
}

/// Everything but the drawing state is the same in both states.
pub open spec fn same_browsing(a: Game, b: Game) -> bool {
    &&& same_registry(a, b)
    &&& a.cursor == b.cursor
}

/// Nothing observable differs between the two states.
pub open spec fn unchanged(a: Game, b: Game) -> bool {
    &&& same_browsing(a, b)
    &&& a.state == b.state
    &&& a.targeted == b.targeted
    &&& a.arrow_head == b.arrow_head
    &&& a.region == b.region
    &&& a.arrows@ == b.arrows@
    &&& a.zones@ == b.zones@
}

/// The unit under the cursor can be selected: it belongs to the side whose turn it is and has not
/// moved this turn.
pub open spec fn selectable(g: Game) -> bool {
    &&& g.state == GameState::CursorMovement
    &&& unit_at_spec(g.units@, g.cursor.position) is Some
    &&& g.units@[unit_at_spec(g.units@, g.cursor.position)->0].association.turn == g.turn
    &&& !g.units@[unit_at_spec(g.units@, g.cursor.position)->0].moved
}

/// Selecting enters path drawing for the unit under the cursor when it is selectable: the head
/// starts on the unit, the region is computed from it and highlighted, and no path is drawn.
/// Otherwise nothing changes.
pub open spec fn select_post(g0: Game, g1: Game) -> bool {
    if selectable(g0) {
        let pos = g0.cursor.position;
        &&& same_browsing(g0, g1)
        &&& g1.state == GameState::ArrowMovement
        &&& g1.targeted == Some(Targeted { unit: unit_at_spec(g0.units@, pos)->0 as usize })
        &&& g1.arrow_head == ArrowHead(pos)
        &&& g1.region.source == pos
        &&& g1.region@ == moveable_region_of(pos, g0.tiles@, MAXIMUM_COST)
        &&& g1.arrows@.len() == 0
        &&& g1.zones@ == zones_of(g1.region)
    } else {
        unchanged(g0, g1)
    }
}

/// Leaving path drawing without a move: the drawing state is cleared and nothing else changes.
/// Outside path drawing nothing changes.
pub open spec fn cancel_post(g0: Game, g1: Game) -> bool {
    if g0.state == GameState::ArrowMovement {
        &&& same_browsing(g0, g1)
        &&& g1.state == GameState::CursorMovement
        &&& g1.targeted is None
        &&& g1.arrows@.len() == 0
        &&& g1.zones@.len() == 0
    } else {
        unchanged(g0, g1)
    }
}

/// The destination a movement input proposes for the head, if it fits the grid.
pub open spec fn proposed(head: GridCoords, input: MovementInput) -> Option<GridCoords> {
    let x = head.x + axis(input.right, input.left);
    let y = head.y + axis(input.up, input.down);
    if i32::MIN <= x <= i32::MAX && i32::MIN <= y <= i32::MAX {
        Some(GridCoords { x: x as i32, y: y as i32 })
    } else {
        None
    }
}

/// A head move is taken when the proposed cell is the source or in the region; the path is then
/// drawn anew from the new head. Any other move changes nothing.
pub open spec fn move_head_post(g0: Game, input: MovementInput, g1: Game) -> bool {
    let d = proposed(g0.arrow_head.0, input);
    if d is Some && (d->0 == g0.region.source || g0.region@.contains_key(d->0)) {
        &&& same_browsing(g0, g1)
        &&& g1.state == g0.state
        &&& g1.targeted == g0.targeted
        &&& g1.region == g0.region
        &&& g1.zones@ == g0.zones@
        &&& g1.arrow_head == ArrowHead(d->0)
        &&& is_arrow_path(g0.region@, g0.region.source, d->0, g0.turn, g1.arrows@)
    } else {
        unchanged(g0, g1)
    }
}

/// The state with the cursor moved by an input; a step that would leave the grid is dropped.
pub open spec fn cursor_moved(g0: Game, input: Option<MovementInput>) -> Game {
    match input {
        Some(m) => match proposed(g0.cursor.position, m) {
            Some(p) => Game { cursor: Cursor { position: p }, ..g0 },
            None => g0,
        },
        None => g0,
    }
}

/// While browsing, the cursor moves by the input and, on confirm, the unit under its new cell is
/// selected. While drawing a path nothing changes.
pub open spec fn move_cursor_post(g0: Game, input: Option<MovementInput>, confirm: bool, g1: Game) -> bool {
    if g0.state == GameState::CursorMovement {
        if confirm {
            select_post(cursor_moved(g0, input), g1)
        } else {
            unchanged(cursor_moved(g0, input), g1)
        }
    } else {
        unchanged(g0, g1)
    }
}

/// Committing with the head on a cell other than the source moves the targeted unit and its
/// backdrop there, marks it moved, hands the turn to the other side, whose units become free to
/// move, and leaves path drawing. With the head on the source it is a cancel.
pub open spec fn commit_post(g0: Game, g1: Game) -> bool {
    if g0.state == GameState::ArrowMovement && g0.arrow_head.0 != g0.region.source {
        let id = g0.targeted->0.unit as int;
        let dest = g0.arrow_head.0;
        let next = other_side(g0.turn);
        &&& g1.units@.len() == g0.units@.len()
        &&& forall|i: int|
            0 <= i < g0.units@.len() ==> #[trigger] g1.units@[i] == (if i == id {
                Unit {
                    position: dest,
                    backdrop: crate::units::BackdropBundle { position: dest, ..g0.units@[i].backdrop },
                    moved: true,
                    ..g0.units@[i]
                }
            } else if g0.units@[i].association.turn == next {
                Unit { moved: false, ..g0.units@[i] }
            } else {
                g0.units@[i]
            })
        &&& g1.associations.player1@ == g0.associations.player1@
        &&& g1.associations.player2@ == g0.associations.player2@
        &&& g1.tiles@ == g0.tiles@
        &&& g1.cursor == g0.cursor
        &&& g1.turn == next
        &&& g1.state == GameState::CursorMovement
        &&& g1.targeted is None
        &&& g1.arrows@.len() == 0
        &&& g1.zones@.len() == 0
    } else {
        cancel_post(g0, g1)
    }
}

/// One highlighted cell for each cell of a region.
fn zones_for(region: &MoveableRegion) -> (r: Vec<MovementZone>)
    ensures
        r@ == zones_of(*region),
{
    let keys = region.keys();
    let mut zones: Vec<MovementZone> = Vec::new();
    let mut i: usize = 0;
    while i < keys.len()
        invariant
            i <= keys@.len(),
            keys@.len() == region.entries@.len(),
            forall|j: int| 0 <= j < keys@.len() ==> keys@[j] == #[trigger] region.entries@[j].node,
            zones@.len() == i,
            forall|j: int| 0 <= j < i ==> zones@[j] == (MovementZone { position: #[trigger] keys@[j] }),
        decreases keys.len() - i,
    {
        zones.push(MovementZone { position: keys[i] });
        i = i + 1;
    }
    assert(zones@ =~= zones_of(*region));
    zones
}

/// The units that spawn markers produce, taken in order, and what is left of each side's queue.
/// Each marker takes the last kind of its side's queue; a marker whose side has none left places
/// nothing.
pub open spec fn spawn_plan(
    q1: Seq<UnitSpawnTypes>,
    q2: Seq<UnitSpawnTypes>,
    locs: Seq<UnitSpawnLocation>,
) -> (Seq<Unit>, Seq<UnitSpawnTypes>, Seq<UnitSpawnTypes>)
    decreases locs.len(),
{
    if locs.len() == 0 {
        (Seq::empty(), q1, q2)
    } else {
        let prev = spawn_plan(q1, q2, locs.drop_last());
        let l = locs.last();
        match l.association.turn {
            TurnState::Player1 => if prev.1.len() > 0 {
                (prev.0.push(unit_of(prev.1.last(), l.grid_coords, TurnState::Player1)), prev.1.drop_last(), prev.2)
            } else {
                prev
            },
            TurnState::Player2 => if prev.2.len() > 0 {
                (prev.0.push(unit_of(prev.2.last(), l.grid_coords, TurnState::Player2)), prev.1, prev.2.drop_last())
            } else {
                prev
            },
        }
    }
}

impl Game {
    /// The side index lists exactly the units of each side.
    pub open spec fn associations_wf(&self) -> bool {
        forall|id: usize, side: TurnState|
            #[trigger] self.associations.side(side).contains(id) <==> (id < self.units@.len()
                && self.units@[id as int].association.turn == side)
    }

    pub open spec fn wf(&self) -> bool {
        &&& self.associations_wf()
        &&& self.state == GameState::ArrowMovement ==> {
            &&& self.targeted is Some
            &&& self.targeted->0.unit < self.units@.len()
            &&& self.units@[self.targeted->0.unit as int].association.turn == self.turn
            &&& unique_nodes(self.region.entries@)
            &&& region_wf(self.region@, self.region.costs(), self.region.source, self.tiles@, MAXIMUM_COST as int)
            &&& (self.arrow_head.0 == self.region.source || self.region@.contains_key(self.arrow_head.0))
        }
        &&& self.state == GameState::CursorMovement ==> self.targeted is None
    }

    /// A match on a level: no units yet, the first side to play, the cursor browsing at the origin.
    pub fn new(tiles: TileTypes) -> (r: Game)
        ensures
            r.wf(),
            r.tiles@ == tiles@,
            r.units@.len() == 0,
            r.turn == TurnState::Player1,
            r.state == GameState::CursorMovement,
            r.cursor.position == (GridCoords { x: 0, y: 0 }),
            r.arrows@.len() == 0,
            r.zones@.len() == 0,
    {
        Game {
            tiles,
            units: Vec::new(),
            associations: UnitAssociations::new(),
            turn: TurnState::Player1,
            state: GameState::CursorMovement,
            cursor: Cursor { position: GridCoords { x: 0, y: 0 } },
            targeted: None,
            arrow_head: ArrowHead(GridCoords { x: 0, y: 0 }),
            region: MoveableRegion { source: GridCoords { x: 0, y: 0 }, entries: Vec::new() },
            arrows: Vec::new(),
            zones: Vec::new(),
        }
    }

    /// Places a fresh unit and records its side; returns its registry index.
    pub fn spawn_unit(&mut self, kind: UnitSpawnTypes, grid_coords: GridCoords, association: TurnState) -> (r: usize)
        requires
            old(self).wf(),
            old(self).units@.len() < usize::MAX,
        ensures
            final(self).wf(),
            r == old(self).units@.len(),
            final(self).units@ == old(self).units@.push(unit_of(kind, grid_coords, association)),
            final(self).turn == old(self).turn,
            final(self).state == old(self).state,
            final(self).cursor == old(self).cursor,
            final(self).tiles@ == old(self).tiles@,
    {
        let id = self.units.len();
        let unit = create_unit(kind, grid_coords, association);
        self.units.push(unit);
        self.associations.insert(id, association);
        proof {
            let g0 = *old(self);
            assert forall|i: usize, side: TurnState|
                #[trigger] self.associations.side(side).contains(i) <==> (i < self.units@.len()
                    && self.units@[i as int].association.turn == side) by {
                if side == association {
                    assert(self.associations.side(side) == g0.associations.side(side).push(id));
                    if i != id {
                        let a = g0.associations.side(side);
                        if a.push(id).contains(i) {
                            let k = choose|k: int| 0 <= k < a.len() + 1 && a.push(id)[k] == i;
                            assert(a[k] == i);
                        }
                        if a.contains(i) {
                            let k = choose|k: int| 0 <= k < a.len() && a[k] == i;
                            assert(a.push(id)[k] == i);
                        }
                    } else {
                        assert(self.associations.side(side).last() == id);
                    }
                } else {
                    assert(side == other_side(association));
                    if i == id {
                        assert(!g0.associations.side(side).contains(i));
                    }
                }
            }
        }
        id
    }

    /// Places a unit on each spawn marker, taking kinds from the back of the marker's side's queue.
    pub fn fill_unit_spawn_locations(&mut self, queues: &mut UnitSpawnQueues, locations: &Vec<UnitSpawnLocation>)
        requires
            old(self).wf(),
            old(self).units@.len() + locations@.len() <= usize::MAX,
        ensures
            final(self).wf(),
            final(self).units@ == old(self).units@ + spawn_plan(old(queues).player1@, old(queues).player2@, locations@).0,
            final(queues).player1@ == spawn_plan(old(queues).player1@, old(queues).player2@, locations@).1,
            final(queues).player2@ == spawn_plan(old(queues).player1@, old(queues).player2@, locations@).2,
            final(self).turn == old(self).turn,
            final(self).state == old(self).state,
            final(self).cursor == old(self).cursor,
            final(self).tiles@ == old(self).tiles@,
    {
        let ghost u0 = self.units@;
        let ghost q1 = queues.player1@;
        let ghost q2 = queues.player2@;
        let mut i: usize = 0;
        while i < locations.len()
            invariant
                i <= locations@.len(),
                self.wf(),
                u0 == old(self).units@,
                q1 == old(queues).player1@,
                q2 == old(queues).player2@,
                u0.len() + locations@.len() <= usize::MAX,
                spawn_plan(q1, q2, locations@.subrange(0, i as int)).0.len() <= i,
                self.units@ == u0 + spawn_plan(q1, q2, locations@.subrange(0, i as int)).0,
                queues.player1@ == spawn_plan(q1, q2, locations@.subrange(0, i as int)).1,
                queues.player2@ == spawn_plan(q1, q2, locations@.subrange(0, i as int)).2,
                self.turn == old(self).turn,
                self.state == old(self).state,
                self.cursor == old(self).cursor,
                self.tiles@ == old(self).tiles@,
            decreases locations.len() - i,
        {
            let ghost next = locations@.subrange(0, i + 1);
            assert(next.drop_last() =~= locations@.subrange(0, i as int));
            let l = locations[i];
            let popped = match l.association.turn {
                TurnState::Player1 => queues.player1.pop(),
                TurnState::Player2 => queues.player2.pop(),
            };
            if let Some(kind) = popped {
                self.spawn_unit(kind, l.grid_coords, l.association.turn);
                assert(self.units@ =~= u0 + spawn_plan(q1, q2, next).0);
            } else {
                assert(self.units@ =~= u0 + spawn_plan(q1, q2, next).0);
            }
            i = i + 1;
        }
        assert(locations@.subrange(0, locations@.len() as int) =~= locations@);
    }

    /// The index of the first unit on a cell, if any.
    pub fn unit_at(&self, pos: GridCoords) -> (r: Option<usize>)
        ensures
            r is Some <==> unit_at_spec(self.units@, pos) is Some,
            r is Some ==> r->0 as int == unit_at_spec(self.units@, pos)->0,
            r is Some ==> r->0 < self.units@.len() && self.units@[r->0 as int].position == pos,
    {
        let mut i: usize = 0;
        while i < self.units.len()
            invariant
                i <= self.units@.len(),
                forall|j: int| 0 <= j < i ==> self.units@[j].position != pos,
            decreases self.units.len() - i,
        {
            if self.units[i].position == pos {
                let ghost k = choose|k: int|
                    0 <= k < self.units@.len() && self.units@[k].position == pos && forall|j: int|
                        0 <= j < k ==> self.units@[j].position != pos;
                assert(0 <= i < self.units@.len() && self.units@[i as int].position == pos);
                assert(k == i as int) by {
                    if k < i {
                    } else if k > i {
                        assert(self.units@[i as int].position != pos);
                    }
                };
                return Some(i);
            }
            i = i + 1;
        }
        None
    }

    /// Drops the drawn path and the highlighted region.
    pub fn clear_drawn_arrows(&mut self)
        ensures
            final(self).arrows@.len() == 0,
            final(self).zones@.len() == 0,
            final(self).units@ == old(self).units@,
            final(self).associations == old(self).associations,
            final(self).turn == old(self).turn,
            final(self).tiles@ == old(self).tiles@,
            final(self).cursor == old(self).cursor,
            final(self).state == old(self).state,
            final(self).targeted == old(self).targeted,
            final(self).arrow_head == old(self).arrow_head,
            final(self).region == old(self).region,
    {
        self.arrows = Vec::new();
        self.zones = Vec::new();
    }

    /// Confirms the unit under the cursor, entering path drawing when it is selectable.
    #[verifier::rlimit(50)]
    pub fn select_unit(&mut self)
        requires
            old(self).wf(),
        ensures
            final(self).wf(),
            select_post(*old(self), *final(self)),
    {
        if self.state != GameState::CursorMovement {
            return;
        }
        let pos = self.cursor.position;
        let found = self.unit_at(pos);
        if found.is_none() {
            return;
        }
        let id = found.unwrap();
        let mine = self.associations.contains(id, self.turn);
        proof {
            assert(mine <==> (id < self.units@.len() && self.units@[id as int].association.turn == self.turn));
        }
        if !(mine && !self.units[id].moved) {
            assert(!selectable(*self));
            return;
        }
        let region = calculate_moveable_region(pos, &self.tiles, MAXIMUM_COST);
        let zones = zones_for(&region);
        self.state = GameState::ArrowMovement;
        self.targeted = Some(Targeted { unit: id });
        self.arrow_head = ArrowHead(pos);
        self.region = region;
        self.arrows = Vec::new();
        self.zones = zones;
    }

    /// Moves the cursor by an input and, on confirm, selects the unit under it.
    pub fn move_cursor(&mut self, input: Option<MovementInput>, confirm: bool)
        requires
            old(self).wf(),
        ensures
            final(self).wf(),
            move_cursor_post(*old(self), input, confirm, *final(self)),
    {
        if self.state != GameState::CursorMovement {
            return;
        }
        if let Some(m) = input {
            let d = m.as_grid_coords();
            if let Some(p) = offset(self.cursor.position, d.x, d.y) {
                self.cursor = Cursor { position: p };
            }
        }
        if confirm {
            self.select_unit();
        }
    }

    /// Leaves path drawing without moving anything.
    pub fn cancel(&mut self)
        requires
            old(self).wf(),
        ensures
            final(self).wf(),
            cancel_post(*old(self), *final(self)),
    {
        if self.state != GameState::ArrowMovement {
            return;
        }
        self.clear_drawn_arrows();
        self.state = GameState::CursorMovement;
        self.targeted = None;
    }

    /// Moves the head by an input when the new cell is the source or in the region, and redraws the
    /// path from it.
    pub fn move_arrow_head(&mut self, input: MovementInput)
        requires
            old(self).wf(),
            old(self).state == GameState::ArrowMovement,
        ensures
            final(self).wf(),
            move_head_post(*old(self), input, *final(self)),
    {
        let d = input.as_grid_coords();
        let dest = match offset(self.arrow_head.0, d.x, d.y) {
            Some(p) => p,
            None => {
                return;
            },
        };
        if !(dest == self.region.source || self.region.contains_key(dest)) {
            return;
        }
        proof {
            lemma_region_forest(self.region@, self.region.costs(), self.region.source, self.tiles@, MAXIMUM_COST as int);
        }
        let path = arrow_path(&self.region, dest, self.turn);
        self.arrow_head = ArrowHead(dest);
        self.arrows = path;
    }

    /// Puts every unit's backdrop on the unit's cell.
    pub fn update_backdrop_positions(&mut self)
        requires
            old(self).wf(),
        ensures
            final(self).wf(),
            final(self).units@.len() == old(self).units@.len(),
            forall|i: int|
                0 <= i < old(self).units@.len() ==> #[trigger] final(self).units@[i] == (Unit {
                    backdrop: crate::units::BackdropBundle {
                        position: old(self).units@[i].position,
                        ..old(self).units@[i].backdrop
                    },
                    ..old(self).units@[i]
                }),
            final(self).associations == old(self).associations,
            final(self).turn == old(self).turn,
            final(self).tiles@ == old(self).tiles@,
            final(self).cursor == old(self).cursor,
            final(self).state == old(self).state,
            final(self).targeted == old(self).targeted,
            final(self).arrow_head == old(self).arrow_head,
            final(self).region == old(self).region,
            final(self).arrows@ == old(self).arrows@,
            final(self).zones@ == old(self).zones@,
    {
        let mut i: usize = 0;
        let ghost u0 = self.units@;
        while i < self.units.len()
            invariant
                i <= self.units@.len(),
                self.units@.len() == u0.len(),
                self.associations == old(self).associations,
                u0 == old(self).units@,
                self.turn == old(self).turn,
                self.tiles@ == old(self).tiles@,
                self.cursor == old(self).cursor,
                self.state == old(self).state,
                self.targeted == old(self).targeted,
                self.arrow_head == old(self).arrow_head,
                self.region == old(self).region,
                self.arrows@ == old(self).arrows@,
                self.zones@ == old(self).zones@,
                forall|j: int| 0 <= j < i ==> #[trigger] self.units@[j] == (Unit {
                    backdrop: crate::units::BackdropBundle { position: u0[j].position, ..u0[j].backdrop },
                    ..u0[j]
                }),
                forall|j: int| i <= j < u0.len() ==> #[trigger] self.units@[j] == u0[j],
            decreases u0.len() - i,
        {
            let mut u = self.units[i];
            u.backdrop.position = u.position;
            self.units.set(i, u);
            i = i + 1;
        }
        proof {
            let g0 = *old(self);
            assert forall|id: usize, s: TurnState|
                #[trigger] self.associations.side(s).contains(id) <==> (id < self.units@.len()
                    && self.units@[id as int].association.turn == s) by {
                if id < self.units@.len() {
                    assert(self.units@[id as int].association == u0[id as int].association);
                }
                assert(g0.associations.side(s).contains(id) <==> (id < g0.units@.len()
                    && g0.units@[id as int].association.turn == s));
            }
        }
    }

    /// Gives every unit of a side its move back.
    pub fn refresh_units(&mut self, side: TurnState)
        requires
            old(self).wf(),
        ensures
            final(self).wf(),
            final(self).units@.len() == old(self).units@.len(),
            forall|i: int|
                0 <= i < old(self).units@.len() ==> #[trigger] final(self).units@[i] == (if old(self).units@[i].association.turn == side {
                    Unit { moved: false, ..old(self).units@[i] }
                } else {
                    old(self).units@[i]
                }),
            final(self).associations == old(self).associations,
            final(self).turn == old(self).turn,
            final(self).tiles@ == old(self).tiles@,
            final(self).cursor == old(self).cursor,
            final(self).state == old(self).state,
            final(self).targeted == old(self).targeted,
            final(self).arrow_head == old(self).arrow_head,
            final(self).region == old(self).region,
            final(self).arrows@ == old(self).arrows@,
            final(self).zones@ == old(self).zones@,
    {
        let mut i: usize = 0;
        let ghost u0 = self.units@;
        while i < self.units.len()
            invariant
                i <= self.units@.len(),
                self.units@.len() == u0.len(),
                self.associations == old(self).associations,
                u0 == old(self).units@,
                self.turn == old(self).turn,
                self.tiles@ == old(self).tiles@,
                self.cursor == old(self).cursor,
                self.state == old(self).state,
                self.targeted == old(self).targeted,
                self.arrow_head == old(self).arrow_head,
                self.region == old(self).region,
                self.arrows@ == old(self).arrows@,
                self.zones@ == old(self).zones@,
                forall|j: int| 0 <= j < i ==> #[trigger] self.units@[j] == (if u0[j].association.turn == side {
                    Unit { moved: false, ..u0[j] }
                } else {
                    u0[j]
                }),
                forall|j: int| i <= j < u0.len() ==> #[trigger] self.units@[j] == u0[j],
            decreases u0.len() - i,
        {
            if self.units[i].association.turn == side {
                let mut u = self.units[i];
                u.moved = false;
                self.units.set(i, u);
            }
            i = i + 1;
        }
        proof {
            let g0 = *old(self);
            assert forall|id: usize, s: TurnState|
                #[trigger] self.associations.side(s).contains(id) <==> (id < self.units@.len()
                    && self.units@[id as int].association.turn == s) by {
                if id < self.units@.len() {
                    assert(self.units@[id as int].association == u0[id as int].association);
                }
                assert(g0.associations.side(s).contains(id) <==> (id < g0.units@.len()
                    && g0.units@[id as int].association.turn == s));
            }
        }
    }

    /// Confirms the drawn path: the unit moves to the head and the turn passes; with the head on the
    /// source nothing moves and path drawing ends.
    pub fn commit(&mut self)
        requires
            old(self).wf(),
        ensures
            final(self).wf(),
            commit_post(*old(self), *final(self)),
    {
        if self.state != GameState::ArrowMovement {
            return;
        }
        if self.arrow_head.0 == self.region.source {
            self.cancel();
            return;
        }
        let id = self.targeted.unwrap().unit;
        let dest = self.arrow_head.0;
        let mut u = self.units[id];
        u.position = dest;
        u.backdrop.position = dest;
        u.moved = true;
        let ghost g0 = *self;
        let ghost old_side = self.turn;
        self.units.set(id, u);
        proof {
            assert forall|i: usize, s: TurnState|
                #[trigger] self.associations.side(s).contains(i) <==> (i < self.units@.len()
                    && self.units@[i as int].association.turn == s) by {
                assert(g0.associations.side(s).contains(i) <==> (i < g0.units@.len()
                    && g0.units@[i as int].association.turn == s));
                if i < self.units@.len() {
                    assert(self.units@[i as int].association == g0.units@[i as int].association);
                }
            }
        }
        let next = self.turn.other();
        self.clear_drawn_arrows();
        self.state = GameState::CursorMovement;
        self.targeted = None;
        self.turn = next;
        let ghost g1 = *self;
        self.refresh_units(next);
        proof {
            let o = *old(self);
            assert forall|i: int| 0 <= i < o.units@.len() implies #[trigger] self.units@[i] == (if i == id as int {
                Unit {
                    position: dest,
                    backdrop: crate::units::BackdropBundle { position: dest, ..o.units@[i].backdrop },
                    moved: true,
                    ..o.units@[i]
                }
            } else if o.units@[i].association.turn == next {
                Unit { moved: false, ..o.units@[i] }
            } else {
                o.units@[i]
            }) by {
                assert(self.units@[i] == (if g1.units@[i].association.turn == next {
                    Unit { moved: false, ..g1.units@[i] }
                } else {
                    g1.units@[i]
                }));
                if i == id as int {
                    assert(g1.units@[i].association.turn == old_side);
                    assert(next != old_side);
                } else {
                    assert(g1.units@[i] == o.units@[i]);
                }
            }
        }
    }
}

/// Selecting a unit and cancelling right away leaves the units, the side index and the turn as they
/// were.
pub proof fn lemma_select_then_cancel(g0: Game, g1: Game, g2: Game)
    requires
        select_post(g0, g1),
        cancel_post(g1, g2),
    ensures
        same_registry(g0, g2),
{
}

/// A unit of the side whose turn it is not cannot be selected: path drawing is not entered.
pub proof fn lemma_select_other_side(g0: Game, g1: Game)
    requires
        select_post(g0, g1),
        g0.state == GameState::CursorMovement,
        unit_at_spec(g0.units@, g0.cursor.position) is Some,
        g0.units@[unit_at_spec(g0.units@, g0.cursor.position)->0].association.turn != g0.turn,
    ensures
        g1.state == GameState::CursorMovement,
        unchanged(g0, g1),
{
}

/// Committing with the head on the source moves no unit and keeps the turn.
pub proof fn lemma_commit_at_source(g0: Game, g1: Game)
    requires
        commit_post(g0, g1),
        g0.state == GameState::ArrowMovement,
        g0.arrow_head.0 == g0.region.source,
    ensures
        same_registry(g0, g1),
        g1.state == GameState::CursorMovement,
        g1.targeted is None,
        g1.arrows@.len() == 0,
{
}

} // verus!
