use vstd::prelude::*;

verus! {

/// An integer cell address on the level grid.
#[derive(Clone, Copy, Debug, Default, PartialEq, Eq, Hash, Structural)]
pub struct GridCoords {
    pub x: i32,
    pub y: i32,
}

/// A tile position on a tilemap layer.
#[derive(Clone, Copy, Debug, PartialEq, Eq, Hash, Structural)]
pub struct TilePos {
    pub x: u32,
    pub y: u32,
}

/// Two cells are adjacent when they differ by one unit step on exactly one axis.
pub open spec fn adjacent(a: GridCoords, b: GridCoords) -> bool {
    (a.x == b.x && (a.y - b.y == 1 || b.y - a.y == 1)) || (a.y == b.y && (a.x - b.x == 1 || b.x
        - a.x == 1))
}

/// A cell whose four neighbours all have coordinates that fit in `i32`.
pub open spec fn interior(g: GridCoords) -> bool {
    i32::MIN < g.x < i32::MAX && i32::MIN < g.y < i32::MAX
}

/// The four axis-aligned neighbours of a cell: east, west, north, south.
pub fn neighbours(grid_coord: &GridCoords) -> (r: [GridCoords; 4])
    requires
        interior(*grid_coord),
    ensures
        r@.len() == 4,
        forall|i: int| 0 <= i < 4 ==> adjacent(*grid_coord, #[trigger] r@[i]),
        forall|i: int, j: int| 0 <= i < j < 4 ==> r@[i] != r@[j],
        forall|n: GridCoords| adjacent(*grid_coord, n) ==> exists|i: int| 0 <= i < 4 && r@[i] == n,
        r@[0].x == grid_coord.x + 1 && r@[0].y == grid_coord.y,
        r@[1].x == grid_coord.x - 1 && r@[1].y == grid_coord.y,
        r@[2].x == grid_coord.x && r@[2].y == grid_coord.y + 1,
        r@[3].x == grid_coord.x && r@[3].y == grid_coord.y - 1,
{
    let r = [
        GridCoords { x: grid_coord.x + 1, y: grid_coord.y },
        GridCoords { x: grid_coord.x - 1, y: grid_coord.y },
        GridCoords { x: grid_coord.x, y: grid_coord.y + 1 },
        GridCoords { x: grid_coord.x, y: grid_coord.y - 1 },
    ];
    assert forall|n: GridCoords| adjacent(*grid_coord, n) implies exists|i: int|
        0 <= i < 4 && r@[i] == n by {
        if n.x == grid_coord.x + 1 {
            assert(r@[0] == n);
        } else if n.x == grid_coord.x - 1 {
            assert(r@[1] == n);
        } else if n.y == grid_coord.y + 1 {
            assert(r@[2] == n);
        } else {
            assert(r@[3] == n);
        }
    }
    r
}

/// The tilemap position of a cell; coordinates are reinterpreted as unsigned.
pub fn grid_to_tile(grid_coords: GridCoords) -> (r: TilePos)
    ensures
        r.x == grid_coords.x as u32,
        r.y == grid_coords.y as u32,
{
    TilePos { x: grid_coords.x as u32, y: grid_coords.y as u32 }
}

/// The cell one offset away, or `None` when a coordinate would leave `i32`.
pub fn offset(g: GridCoords, dx: i32, dy: i32) -> (r: Option<GridCoords>)
    ensures
        r is Some <==> (i32::MIN <= g.x + dx <= i32::MAX && i32::MIN <= g.y + dy <= i32::MAX),
        r is Some ==> r->0.x == g.x + dx && r->0.y == g.y + dy,
{
    match (g.x.checked_add(dx), g.y.checked_add(dy)) {
        (Some(x), Some(y)) => Some(GridCoords { x, y }),
        _ => None,
    }
}

} // verus!
