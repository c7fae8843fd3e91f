use vstd::prelude::*;
use crate::game::TurnState;
use crate::tiles::{
    passable, step_cost, TerrainClass, TerrainView, TileTypes, ARROW_BODY_DL, ARROW_BODY_DR,
    ARROW_BODY_H, ARROW_BODY_UL, ARROW_BODY_UR, ARROW_BODY_V, ARROW_HEAD_D, ARROW_HEAD_L,
    ARROW_HEAD_R, ARROW_HEAD_U,
};
use crate::util::{adjacent, offset, GridCoords};

verus! {

/// The movement budget of a path drawn from a selected unit.
pub const MAXIMUM_COST: usize = 6;

/// One reachable cell, the cell it is entered from, and the accumulated cost of entering it.
#[derive(Clone, Copy, Debug, PartialEq, Eq, Structural)]
pub struct RegionEntry {
    pub node: GridCoords,
    pub parent: GridCoords,
    pub cost: usize,
}

/// The cells reachable from `source` within a budget, each with its predecessor on a cheapest
/// path. The source itself is the root and never a key.
#[derive(Clone, Debug)]
pub struct MoveableRegion {
    pub source: GridCoords,
    pub entries: Vec<RegionEntry>,
}

pub open spec fn parents_of(s: Seq<RegionEntry>) -> Map<GridCoords, GridCoords>
    decreases s.len(),
{
    if s.len() == 0 {
        Map::empty()
    } else {
        parents_of(s.drop_last()).insert(s.last().node, s.last().parent)
    }
}

pub open spec fn costs_of(s: Seq<RegionEntry>) -> Map<GridCoords, int>
    decreases s.len(),
{
    if s.len() == 0 {
        Map::empty()
    } else {
        costs_of(s.drop_last()).insert(s.last().node, s.last().cost as int)
    }
}

pub open spec fn unique_nodes(s: Seq<RegionEntry>) -> bool {
    forall|i: int, j: int| 0 <= i < j < s.len() ==> s[i].node != s[j].node
}

/// A predecessor map with its costs is a cost-bounded shortest-path forest rooted at `source`:
/// each key is entered from an adjacent cell, which is the source or a cheaper key, and its cost
/// is that of the predecessor plus the cost of stepping onto it.
pub open spec fn region_wf(
    m: Map<GridCoords, GridCoords>,
    c: Map<GridCoords, int>,
    source: GridCoords,
    t: TerrainView,
    max_cost: int,
) -> bool {
    &&& m.dom() == c.dom()
    &&& !m.contains_key(source)
    &&& forall|k: GridCoords|
        #![trigger m[k]]
        m.contains_key(k) ==> {
            &&& adjacent(k, m[k])
            &&& passable(t, k)
            &&& 0 <= c[k] <= max_cost
            &&& ((m[k] == source && c[k] == step_cost(t, k)) || (m.contains_key(m[k]) && c[k]
                == c[m[k]] + step_cost(t, k)))
        }
}

impl View for MoveableRegion {
    type V = Map<GridCoords, GridCoords>;

    open spec fn view(&self) -> Map<GridCoords, GridCoords> {
        parents_of(self.entries@)
    }
}

impl MoveableRegion {
    pub open spec fn costs(&self) -> Map<GridCoords, int> {
        costs_of(self.entries@)
    }

    pub open spec fn wf(&self, t: TerrainView, max_cost: int) -> bool {
        &&& unique_nodes(self.entries@)
        &&& region_wf(self@, self.costs(), self.source, t, max_cost)
    }
}

/// The cell reached from `k` by following `n` predecessors.
pub open spec fn walk(m: Map<GridCoords, GridCoords>, k: GridCoords, n: nat) -> GridCoords
    decreases n,
{
    if n == 0 {
        k
    } else {
        walk(m, m[k], (n - 1) as nat)
    }
}

/// Following `n` predecessors from `k` stays among the keys and ends at `s`.
pub open spec fn reaches(m: Map<GridCoords, GridCoords>, k: GridCoords, n: nat, s: GridCoords) -> bool {
    &&& walk(m, k, n) == s
    &&& forall|j: nat| j < n ==> m.contains_key(#[trigger] walk(m, k, j))
}

/// The sum of the step costs of the first `n` cells of the predecessor chain from `k`.
pub open spec fn chain_cost(m: Map<GridCoords, GridCoords>, t: TerrainView, k: GridCoords, n: nat) -> int
    decreases n,
{
    if n == 0 {
        0
    } else {
        step_cost(t, k) + chain_cost(m, t, m[k], (n - 1) as nat)
    }
}

/// What the search step accepts of one reached cell: a cell other than the source that is new,
/// passable, adjacent to a predecessor already placed, and within budget.
pub open spec fn accepted(
    s: Seq<RegionEntry>,
    source: GridCoords,
    t: TerrainView,
    max_cost: int,
    item: (GridCoords, Option<GridCoords>),
) -> Option<RegionEntry> {
    let m = parents_of(s);
    let c = costs_of(s);
    match item.1 {
        None => None,
        Some(p) => {
            let cost = (if p == source { 0 } else { c[p] }) + step_cost(t, item.0);
            if item.0 != source && !m.contains_key(item.0) && adjacent(item.0, p) && passable(t, item.0)
                && (p == source || m.contains_key(p)) && cost <= max_cost {
                Some(RegionEntry { node: item.0, parent: p, cost: cost as usize })
            } else {
                None
            }
        },
    }
}

/// The region entries that a sequence of reached cells yields, taken in order.
pub open spec fn build_entries(
    source: GridCoords,
    t: TerrainView,
    max_cost: int,
    items: Seq<(GridCoords, Option<GridCoords>)>,
) -> Seq<RegionEntry>
    decreases items.len(),
{
    if items.len() == 0 {
        Seq::empty()
    } else {
        let s = build_entries(source, t, max_cost, items.drop_last());
        match accepted(s, source, t, max_cost, items.last()) {
            Some(e) => s.push(e),
            None => s,
        }
    }
}

/// The cells that a Dijkstra search from `start` visits over the terrain, in the order visited,
/// each with the cell it was reached from (none for `start`).
pub uninterp spec fn dijkstra_reach_of(start: GridCoords, t: TerrainView) -> Seq<(GridCoords, Option<GridCoords>)>;

/// The region computed for a source, a terrain and a budget.
pub open spec fn moveable_region_of(source: GridCoords, t: TerrainView, max_cost: usize) -> Map<GridCoords, GridCoords> {
    parents_of(build_entries(source, t, max_cost as int, dijkstra_reach_of(source, t)))
}


/// The cost of stepping onto a cell, for the passable ones.
fn step_cost_of(tiles: &TileTypes, g: GridCoords) -> (r: Option<usize>)
    ensures
        r is Some <==> passable(tiles@, g),
        r is Some ==> r->0 == step_cost(tiles@, g),
{
    match tiles.classify(g) {
        TerrainClass::Open => Some(1),
        TerrainClass::Difficult => Some(2),
        TerrainClass::Impassable => None,
    }
}

/// The passable neighbours of a cell, each with the cost of stepping onto it.
pub fn node_neighbours_with_cost(tiles: &TileTypes, node: &GridCoords) -> (r: Vec<(GridCoords, usize)>)
    ensures
        forall|i: int|
            0 <= i < r@.len() ==> adjacent(*node, #[trigger] r@[i].0) && passable(tiles@, r@[i].0)
                && r@[i].1 == step_cost(tiles@, r@[i].0),
        forall|n: GridCoords|
            adjacent(*node, n) && passable(tiles@, n) ==> exists|i: int| 0 <= i < r@.len() && r@[i].0 == n,
{
    let mut r: Vec<(GridCoords, usize)> = Vec::new();
    let dirs: [(i32, i32); 4] = [(1, 0), (-1, 0), (0, 1), (0, -1)];
    let mut d: usize = 0;
    while d < 4
        invariant
            d <= 4,
            dirs@ == seq![(1i32, 0i32), (-1i32, 0i32), (0i32, 1i32), (0i32, -1i32)],
            forall|i: int|
                0 <= i < r@.len() ==> adjacent(*node, #[trigger] r@[i].0) && passable(tiles@, r@[i].0)
                    && r@[i].1 == step_cost(tiles@, r@[i].0),
            forall|n: GridCoords|
                adjacent(*node, n) && passable(tiles@, n) && (exists|j: int|
                    0 <= j < d && n.x == node.x + dirs@[j].0 && n.y == node.y + dirs@[j].1) ==> exists|i: int|
                    0 <= i < r@.len() && r@[i].0 == n,
        decreases 4 - d,
    {
        let (dx, dy) = dirs[d];
        let ghost before = r@;
        let o = offset(*node, dx, dy);
        if let Some(n) = o {
            if let Some(c) = step_cost_of(tiles, n) {
                r.push((n, c));
            }
        }
        assert forall|n: GridCoords|
            adjacent(*node, n) && passable(tiles@, n) && (exists|j: int|
                0 <= j < d + 1 && n.x == node.x + dirs@[j].0 && n.y == node.y + dirs@[j].1) implies exists|i: int|
            0 <= i < r@.len() && r@[i].0 == n by {
            if n.x == node.x + dx && n.y == node.y + dy {
                assert(r@[r@.len() - 1].0 == n);
            } else {
                let j = choose|j: int| 0 <= j < d + 1 && n.x == node.x + dirs@[j].0 && n.y == node.y + dirs@[j].1;
                assert(j < d);
                let i = choose|i: int| 0 <= i < before.len() && before[i].0 == n;
                assert(r@[i] == before[i]);
            }
        }
        d = d + 1;
    }
    assert forall|n: GridCoords| adjacent(*node, n) && passable(tiles@, n) implies exists|i: int|
        0 <= i < r@.len() && r@[i].0 == n by {
        if n.x == node.x + 1 {
            assert(n.x == node.x + dirs@[0].0 && n.y == node.y + dirs@[0].1);
        } else if n.x == node.x - 1 {
            assert(n.x == node.x + dirs@[1].0 && n.y == node.y + dirs@[1].1);
        } else if n.y == node.y + 1 {
            assert(n.x == node.x + dirs@[2].0 && n.y == node.y + dirs@[2].1);
        } else {
            assert(n.x == node.x + dirs@[3].0 && n.y == node.y + dirs@[3].1);
        }
    }
    r
}

/// Relies on pathfinding::directed::dijkstra::dijkstra_reach: the cells visited from `start` over
/// the successor function below, each with the cell it was reached from. The search keeps its state
/// in insertion-ordered maps and a heap ordered by cost, so the sequence depends on the start and the
/// successor function alone, which depends on the terrain alone.
#[verifier::external_body]
fn dijkstra_reach(start: &GridCoords, tiles: &TileTypes) -> (r: Vec<(GridCoords, Option<GridCoords>)>)
    ensures
        r@ == dijkstra_reach_of(*start, tiles@),
{
    pathfinding::directed::dijkstra::dijkstra_reach(start, |n: &GridCoords| node_neighbours_with_cost(tiles, n))
        .map(|item| (item.node, item.parent))
        .collect()
}

/// The index of the entry for a cell, if there is one.
fn find(entries: &Vec<RegionEntry>, g: GridCoords) -> (r: Option<usize>)
    ensures
        r is Some ==> r->0 < entries@.len() && entries@[r->0 as int].node == g,
        r is None ==> forall|i: int| 0 <= i < entries@.len() ==> entries@[i].node != g,
{
    let mut i: usize = 0;
    while i < entries.len()
        invariant
            i <= entries@.len(),
            forall|j: int| 0 <= j < i ==> entries@[j].node != g,
        decreases entries.len() - i,
    {
        if entries[i].node == g {
            return Some(i);
        }
        i = i + 1;
    }
    None
}

/// Builds the region from the cells a search visited: each visited cell is kept when it is new,
/// passable, adjacent to its predecessor, which is the source or a cell already kept, and within
/// budget; its cost is that of its predecessor plus the cost of stepping onto it.
pub fn region_from_reach(
    source: GridCoords,
    tiles: &TileTypes,
    max_cost: usize,
    items: &Vec<(GridCoords, Option<GridCoords>)>,
) -> (r: MoveableRegion)
    ensures
        r.source == source,
        r.entries@ == build_entries(source, tiles@, max_cost as int, items@),
        r.wf(tiles@, max_cost as int),
{
    let mut entries: Vec<RegionEntry> = Vec::new();
    let mut i: usize = 0;
    while i < items.len()
        invariant
            i <= items@.len(),
            entries@ == build_entries(source, tiles@, max_cost as int, items@.subrange(0, i as int)),
        decreases items.len() - i,
    {
        let ghost pre = items@.subrange(0, i as int);
        let ghost next = items@.subrange(0, i + 1);
        assert(next.drop_last() =~= pre);
        proof {
            lemma_build_wf(source, tiles@, max_cost as int, pre);
            lemma_entries(entries@);
        }
        let (node, parent) = items[i];
        if let Some(p) = parent {
            let placed: Option<usize> = if p == source {
                Some(0)
            } else {
                match find(&entries, p) {
                    Some(j) => Some(entries[j].cost),
                    None => None,
                }
            };
            let ddx: i64 = node.x as i64 - p.x as i64;
            let ddy: i64 = node.y as i64 - p.y as i64;
            let near = (ddx == 0 && (ddy == 1 || ddy == -1)) || (ddy == 0 && (ddx == 1 || ddx == -1));
            if let Some(pcost) = placed {
                if node != source && find(&entries, node).is_none() && near {
                    if let Some(step) = step_cost_of(tiles, node) {
                        if pcost <= max_cost && step <= max_cost - pcost {
                            entries.push(RegionEntry { node, parent: p, cost: pcost + step });
                        }
                    }
                }
            }
        }
        i = i + 1;
    }
    assert(items@.subrange(0, items@.len() as int) =~= items@);
    proof {
        lemma_build_wf(source, tiles@, max_cost as int, items@);
    }
    MoveableRegion { source, entries }
}

/// The cells reachable from `source` within `max_cost`, each with its predecessor on a cheapest path.
pub fn calculate_moveable_region(source: GridCoords, tiles: &TileTypes, max_cost: usize) -> (r: MoveableRegion)
    ensures
        r.source == source,
        r@ == moveable_region_of(source, tiles@, max_cost),
        r.entries@ == build_entries(source, tiles@, max_cost as int, dijkstra_reach_of(source, tiles@)),
        r.wf(tiles@, max_cost as int),
{
    let items = dijkstra_reach(&source, tiles);
    region_from_reach(source, tiles, max_cost, &items)
}


/// The shape a path walk relies on: each key is entered from an adjacent cell that is the source or
/// a cheaper key.
pub open spec fn forest_wf(m: Map<GridCoords, GridCoords>, c: Map<GridCoords, int>, source: GridCoords) -> bool {
    &&& m.dom() == c.dom()
    &&& !m.contains_key(source)
    &&& forall|k: GridCoords|
        #![trigger m[k]]
        m.contains_key(k) ==> {
            &&& adjacent(k, m[k])
            &&& 0 <= c[k]
            &&& (m[k] == source || (m.contains_key(m[k]) && c[m[k]] < c[k]))
        }
}

pub proof fn lemma_region_forest(
    m: Map<GridCoords, GridCoords>,
    c: Map<GridCoords, int>,
    source: GridCoords,
    t: TerrainView,
    max_cost: int,
)
    requires
        region_wf(m, c, source, t, max_cost),
    ensures
        forest_wf(m, c, source),
{
    assert forall|k: GridCoords| #![trigger m[k]] m.contains_key(k) implies {
        &&& adjacent(k, m[k])
        &&& 0 <= c[k]
        &&& (m[k] == source || (m.contains_key(m[k]) && c[m[k]] < c[k]))
    } by {
        let q = m[k];
        assert(passable(t, k));
    }
}

impl MoveableRegion {
    pub open spec fn shaped(&self) -> bool {
        &&& unique_nodes(self.entries@)
        &&& forest_wf(self@, self.costs(), self.source)
    }

    /// The entry of a cell, if the cell is in the region.
    pub fn get(&self, g: GridCoords) -> (r: Option<RegionEntry>)
        requires
            unique_nodes(self.entries@),
        ensures
            r is Some <==> self@.contains_key(g),
            r is Some ==> r->0.node == g && r->0.parent == self@[g] && r->0.cost == self.costs()[g],
    {
        proof {
            lemma_entries(self.entries@);
        }
        match find(&self.entries, g) {
            Some(i) => Some(self.entries[i]),
            None => None,
        }
    }

    /// Whether a cell is in the region.
    pub fn contains_key(&self, g: GridCoords) -> (r: bool)
        requires
            unique_nodes(self.entries@),
        ensures
            r == self@.contains_key(g),
    {
        self.get(g).is_some()
    }

    /// The cells of the region, in the order they were reached.
    pub fn keys(&self) -> (r: Vec<GridCoords>)
        ensures
            r@.len() == self.entries@.len(),
            forall|i: int| 0 <= i < r@.len() ==> r@[i] == #[trigger] self.entries@[i].node,
            forall|g: GridCoords| #[trigger] self@.contains_key(g) <==> r@.contains(g),
    {
        proof {
            lemma_entries(self.entries@);
        }
        let mut r: Vec<GridCoords> = Vec::new();
        let mut i: usize = 0;
        while i < self.entries.len()
            invariant
                i <= self.entries@.len(),
                r@.len() == i,
                forall|j: int| 0 <= j < i ==> r@[j] == #[trigger] self.entries@[j].node,
            decreases self.entries.len() - i,
        {
            r.push(self.entries[i].node);
            i = i + 1;
        }
        assert forall|g: GridCoords| #[trigger] self@.contains_key(g) <==> r@.contains(g) by {
            if self@.contains_key(g) {
                let j = choose|j: int| 0 <= j < self.entries@.len() && self.entries@[j].node == g;
                assert(r@[j] == g);
            }
            if r@.contains(g) {
                let j = choose|j: int| 0 <= j < r@.len() && r@[j] == g;
                assert(self.entries@[j].node == g);
            }
        }
        r
    }
}

/// One glyph of a drawn path, at a cell.
#[derive(Clone, Copy, Debug, PartialEq, Eq, Structural)]
pub struct ArrowChunk {
    pub index: usize,
    pub position: GridCoords,
}

/// A highlighted cell of the current region.
#[derive(Clone, Copy, Debug, PartialEq, Eq, Structural)]
pub struct MovementZone {
    pub position: GridCoords,
}

/// The proposed destination of the unit whose path is being drawn.
#[derive(Clone, Copy, Debug, PartialEq, Eq, Structural)]
pub struct ArrowHead(pub GridCoords);

/// The offset of `a` from `b`.
pub open spec fn offset_of(a: GridCoords, b: GridCoords) -> (int, int) {
    (a.x - b.x, a.y - b.y)
}

pub open spec fn unit_step(d: (int, int)) -> bool {
    (d.0 == 0 && (d.1 == 1 || d.1 == -1)) || (d.1 == 0 && (d.0 == 1 || d.0 == -1))
}

/// The head glyph for a head entered with offset `d` from its predecessor.
pub open spec fn head_glyph_of(d: (int, int)) -> usize {
    if d.0 == -1 {
        ARROW_HEAD_L
    } else if d.0 == 1 {
        ARROW_HEAD_R
    } else if d.1 == -1 {
        ARROW_HEAD_D
    } else {
        ARROW_HEAD_U
    }
}

/// The body glyph for a cell whose two path neighbours lie at offsets `a` and `b`: straight when both
/// lie on one axis, else the corner that joins the horizontal one to the vertical one.
pub open spec fn body_glyph_of(a: (int, int), b: (int, int)) -> usize {
    if a.1 == 0 && b.1 == 0 {
        ARROW_BODY_H
    } else if a.0 == 0 && b.0 == 0 {
        ARROW_BODY_V
    } else {
        let h = if a.1 == 0 { a.0 } else { b.0 };
        let v = if a.0 == 0 { a.1 } else { b.1 };
        if h == -1 {
            if v == -1 { ARROW_BODY_UR } else { ARROW_BODY_DR }
        } else {
            if v == -1 { ARROW_BODY_UL } else { ARROW_BODY_DL }
        }
    }
}

/// The second side's glyphs sit four columns after the first side's.
pub open spec fn turn_parity(arrow_index: usize, turn: TurnState) -> usize {
    if turn == TurnState::Player2 {
        (arrow_index + 4) as usize
    } else {
        arrow_index
    }
}

/// The glyph of the side whose turn it is.
pub fn arrow_index_turn_parity(arrow_index: usize, turn_state: &TurnState) -> (r: usize)
    requires
        arrow_index + 4 <= usize::MAX,
    ensures
        r == turn_parity(arrow_index, *turn_state),
{
    match turn_state {
        TurnState::Player1 => arrow_index,
        TurnState::Player2 => arrow_index + 4,
    }
}

/// The head glyph for a head entered with offset `(dx, dy)`.
pub fn head_glyph(dx: i32, dy: i32) -> (r: usize)
    requires
        unit_step((dx as int, dy as int)),
    ensures
        r == head_glyph_of((dx as int, dy as int)),
{
    if dx == -1 {
        ARROW_HEAD_L
    } else if dx == 1 {
        ARROW_HEAD_R
    } else if dy == -1 {
        ARROW_HEAD_D
    } else {
        ARROW_HEAD_U
    }
}

/// The body glyph for a cell whose path neighbours lie at offsets `a` and `b`.
pub fn body_glyph(a: (i32, i32), b: (i32, i32)) -> (r: usize)
    requires
        unit_step((a.0 as int, a.1 as int)),
        unit_step((b.0 as int, b.1 as int)),
        a != b,
    ensures
        r == body_glyph_of((a.0 as int, a.1 as int), (b.0 as int, b.1 as int)),
{
    if a.1 == 0 && b.1 == 0 {
        ARROW_BODY_H
    } else if a.0 == 0 && b.0 == 0 {
        ARROW_BODY_V
    } else {
        let h = if a.1 == 0 { a.0 } else { b.0 };
        let v = if a.0 == 0 { a.1 } else { b.1 };
        if h == -1 {
            if v == -1 { ARROW_BODY_UR } else { ARROW_BODY_DR }
        } else {
            if v == -1 { ARROW_BODY_UL } else { ARROW_BODY_DL }
        }
    }
}

/// The glyph at the head of a path.
pub open spec fn head_chunk(m: Map<GridCoords, GridCoords>, head: GridCoords, turn: TurnState) -> ArrowChunk {
    ArrowChunk { index: turn_parity(head_glyph_of(offset_of(head, m[head])), turn), position: head }
}

/// The glyph at `at`, entered towards the head from `prev` and from the source side by `m[at]`.
pub open spec fn body_chunk(
    m: Map<GridCoords, GridCoords>,
    prev: GridCoords,
    at: GridCoords,
    turn: TurnState,
) -> ArrowChunk {
    ArrowChunk {
        index: turn_parity(body_glyph_of(offset_of(prev, at), offset_of(m[at], at)), turn),
        position: at,
    }
}

/// The glyphs of the path from `head` back to the source: the head glyph at the head, then a body
/// glyph at each cell of the predecessor chain short of the source.
pub open spec fn is_arrow_path(
    m: Map<GridCoords, GridCoords>,
    source: GridCoords,
    head: GridCoords,
    turn: TurnState,
    r: Seq<ArrowChunk>,
) -> bool {
    &&& reaches(m, head, r.len() as nat, source)
    &&& r.len() > 0 ==> r[0] == head_chunk(m, head, turn)
    &&& forall|i: int|
        1 <= i < r.len() ==> r[i] == body_chunk(m, walk(m, head, (i - 1) as nat), walk(m, head, i as nat), turn)
}

proof fn lemma_offset(a: GridCoords, b: GridCoords)
    requires
        adjacent(a, b),
    ensures
        unit_step(offset_of(a, b)),
        unit_step(offset_of(b, a)),
        -1 <= a.x - b.x <= 1,
        -1 <= a.y - b.y <= 1,
{
}

/// Reconstructs the drawn path from the head back to the source of the region.
pub fn arrow_path(region: &MoveableRegion, head: GridCoords, turn: TurnState) -> (r: Vec<ArrowChunk>)
    requires
        region.shaped(),
        head == region.source || region@.contains_key(head),
    ensures
        is_arrow_path(region@, region.source, head, turn, r@),
{
    let ghost m = region@;
    let ghost c = region.costs();
    let mut r: Vec<ArrowChunk> = Vec::new();
    let first = region.get(head);
    if first.is_none() {
        assert(walk(m, head, 0) == head);
        return r;
    }
    let e = first.unwrap();
    let ghost q = m[head];
    proof {
        lemma_offset(head, e.parent);
    }
    r.push(ArrowChunk {
        index: arrow_index_turn_parity(head_glyph(head.x - e.parent.x, head.y - e.parent.y), &turn),
        position: head,
    });
    let mut prev = head;
    let mut current = e.parent;
    let ghost mut i: nat = 1;
    proof {
        assert(walk(m, head, 0) == head);
        lemma_walk_succ(m, head, 0);
    }
    while region.contains_key(current)
        invariant
            region.shaped(),
            m == region@,
            c == region.costs(),
            i >= 1,
            r@.len() == i,
            current == walk(m, head, i),
            prev == walk(m, head, (i - 1) as nat),
            m.contains_key(prev),
            m[prev] == current,
            current == region.source || m.contains_key(current),
            forall|j: nat| j < i ==> m.contains_key(#[trigger] walk(m, head, j)),
            r@[0] == head_chunk(m, head, turn),
            forall|j: int|
                1 <= j < r@.len() ==> r@[j] == body_chunk(m, walk(m, head, (j - 1) as nat), walk(m, head, j as nat), turn),
        decreases (if m.contains_key(current) { c[current] + 1 } else { 0 }),
    {
        let e2 = region.get(current).unwrap();
        let next = e2.parent;
        proof {
            let qp = m[prev];
            let qc = m[current];
            lemma_offset(prev, current);
            lemma_offset(current, next);
            if next != region.source {
                let qn = m[next];
            }
        }
        let a = (prev.x - current.x, prev.y - current.y);
        let b = (next.x - current.x, next.y - current.y);
        r.push(ArrowChunk { index: arrow_index_turn_parity(body_glyph(a, b), &turn), position: current });
        proof {
            lemma_walk_succ(m, head, i);
            assert forall|j: nat| j < i + 1 implies m.contains_key(#[trigger] walk(m, head, j)) by {}
            i = i + 1;
        }
        prev = current;
        current = next;
    }
    r
}

pub proof fn lemma_entries(s: Seq<RegionEntry>)
    ensures
        parents_of(s).dom() == costs_of(s).dom(),
        forall|k: GridCoords| #[trigger]
            parents_of(s).contains_key(k) <==> exists|i: int| 0 <= i < s.len() && s[i].node == k,
        unique_nodes(s) ==> forall|i: int|
            0 <= i < s.len() ==> parents_of(s)[#[trigger] s[i].node] == s[i].parent && costs_of(s)[s[i].node]
                == s[i].cost,
    decreases s.len(),
{
    if s.len() > 0 {
        let d = s.drop_last();
        lemma_entries(d);
        assert forall|k: GridCoords| #[trigger]
            parents_of(s).contains_key(k) <==> exists|i: int| 0 <= i < s.len() && s[i].node == k by {
            if parents_of(s).contains_key(k) && k != s.last().node {
                let i = choose|i: int| 0 <= i < d.len() && d[i].node == k;
                assert(s[i].node == k);
            }
            if exists|i: int| 0 <= i < s.len() && s[i].node == k {
                let i = choose|i: int| 0 <= i < s.len() && s[i].node == k;
                if i < d.len() {
                    assert(d[i].node == k);
                }
            }
        }
        if unique_nodes(s) {
            assert(unique_nodes(d));
            assert forall|i: int| 0 <= i < s.len() implies parents_of(s)[#[trigger] s[i].node] == s[i].parent
                && costs_of(s)[s[i].node] == s[i].cost by {
                if i < d.len() {
                    assert(d[i].node == s[i].node);
                    assert(s[i].node != s.last().node);
                }
            }
        }
    }
}

proof fn lemma_walk_succ(m: Map<GridCoords, GridCoords>, k: GridCoords, n: nat)
    ensures
        walk(m, k, n + 1) == m[walk(m, k, n)],
    decreases n,
{
    assert(walk(m, k, n + 1) == walk(m, m[k], n));
    if n > 0 {
        lemma_walk_succ(m, m[k], (n - 1) as nat);
        assert(walk(m, k, n) == walk(m, m[k], (n - 1) as nat));
    } else {
        assert(walk(m, m[k], 0) == m[k]);
    }
}

/// Every key of a well-formed region reaches the source, within as many steps as its cost, along a
/// chain whose step costs add up to its cost.
pub proof fn lemma_wf_chain(
    m: Map<GridCoords, GridCoords>,
    c: Map<GridCoords, int>,
    source: GridCoords,
    t: TerrainView,
    max_cost: int,
    k: GridCoords,
)
    requires
        region_wf(m, c, source, t, max_cost),
        m.contains_key(k),
    ensures
        exists|n: nat| 1 <= n <= c[k] && reaches(m, k, n, source) && chain_cost(m, t, k, n) == c[k],
    decreases c[k],
{
    let p = m[k];
    if p == source {
        assert(walk(m, k, 0) == k);
        assert(walk(m, k, 1) == walk(m, source, 0));
        assert forall|j: nat| j < 1 implies m.contains_key(#[trigger] walk(m, k, j)) by {
            assert(j == 0);
        }
        assert(reaches(m, k, 1, source));
        assert(chain_cost(m, t, source, 0) == 0);
        assert(chain_cost(m, t, k, 1) == c[k]);
    } else {
        let q = m[p];
        lemma_wf_chain(m, c, source, t, max_cost, p);
        let np = choose|n: nat| 1 <= n <= c[p] && reaches(m, p, n, source) && chain_cost(m, t, p, n) == c[p];
        let n = np + 1;
        assert(walk(m, k, n) == walk(m, p, np));
        assert forall|j: nat| j < n implies m.contains_key(#[trigger] walk(m, k, j)) by {
            if j > 0 {
                assert(walk(m, k, j) == walk(m, p, (j - 1) as nat));
            }
        }
        assert(reaches(m, k, n, source));
        assert(chain_cost(m, t, k, n) == c[k]);
    }
}

proof fn lemma_wf_insert(
    m: Map<GridCoords, GridCoords>,
    c: Map<GridCoords, int>,
    source: GridCoords,
    t: TerrainView,
    max_cost: int,
    e: RegionEntry,
)
    requires
        region_wf(m, c, source, t, max_cost),
        e.node != source,
        !m.contains_key(e.node),
        adjacent(e.node, e.parent),
        passable(t, e.node),
        e.cost <= max_cost,
        (e.parent == source && e.cost == step_cost(t, e.node)) || (m.contains_key(e.parent) && e.cost
            == c[e.parent] + step_cost(t, e.node)),
    ensures
        region_wf(m.insert(e.node, e.parent), c.insert(e.node, e.cost as int), source, t, max_cost),
{
    let m1 = m.insert(e.node, e.parent);
    let c1 = c.insert(e.node, e.cost as int);
    assert(m1.dom() =~= c1.dom());
    assert forall|k: GridCoords| #![trigger m1[k]] m1.contains_key(k) implies {
        &&& adjacent(k, m1[k])
        &&& passable(t, k)
        &&& 0 <= c1[k] <= max_cost
        &&& ((m1[k] == source && c1[k] == step_cost(t, k)) || (m1.contains_key(m1[k]) && c1[k] == c1[m1[k]]
            + step_cost(t, k)))
    } by {
        if k != e.node {
            assert(m.contains_key(k));
            if m[k] != source {
                assert(m.contains_key(m[k]));
                assert(m[k] != e.node);
            }
        }
    }
}

proof fn lemma_accepted(
    s: Seq<RegionEntry>,
    source: GridCoords,
    t: TerrainView,
    max_cost: int,
    item: (GridCoords, Option<GridCoords>),
)
    requires
        max_cost <= usize::MAX,
        region_wf(parents_of(s), costs_of(s), source, t, max_cost),
        accepted(s, source, t, max_cost, item) is Some,
    ensures
        ({
            let e = accepted(s, source, t, max_cost, item)->0;
            let m = parents_of(s);
            let c = costs_of(s);
            &&& e.node != source
            &&& !m.contains_key(e.node)
            &&& adjacent(e.node, e.parent)
            &&& passable(t, e.node)
            &&& e.cost <= max_cost
            &&& (e.parent == source && e.cost == step_cost(t, e.node)) || (m.contains_key(e.parent)
                && e.cost == c[e.parent] + step_cost(t, e.node))
        }),
{
    let m = parents_of(s);
    let c = costs_of(s);
    let p = item.1->0;
    if p != source {
        let q = m[p];
        assert(0 <= c[p]);
    }
    let cost = (if p == source { 0 } else { c[p] }) + step_cost(t, item.0);
    assert(0 <= cost <= max_cost);
    let e = accepted(s, source, t, max_cost, item)->0;

}

proof fn lemma_build_wf(
    source: GridCoords,
    t: TerrainView,
    max_cost: int,
    items: Seq<(GridCoords, Option<GridCoords>)>,
)
    requires
        max_cost <= usize::MAX,
    ensures
        unique_nodes(build_entries(source, t, max_cost, items)),
        region_wf(
            parents_of(build_entries(source, t, max_cost, items)),
            costs_of(build_entries(source, t, max_cost, items)),
            source,
            t,
            max_cost,
        ),
    decreases items.len(),
{
    let s1 = build_entries(source, t, max_cost, items);
    if items.len() == 0 {
        assert(parents_of(s1).dom() =~= costs_of(s1).dom());
    } else {
        let s = build_entries(source, t, max_cost, items.drop_last());
        lemma_build_wf(source, t, max_cost, items.drop_last());
        let m = parents_of(s);
        let c = costs_of(s);
        let r = accepted(s, source, t, max_cost, items.last());
        assert(s1 == match r {
            Some(e) => s.push(e),
            None => s,
        });
        if let Some(e) = r {
            lemma_accepted(s, source, t, max_cost, items.last());
            lemma_entries(s);
            assert(s1.drop_last() =~= s);
            assert(parents_of(s1) == m.insert(e.node, e.parent));
            assert(costs_of(s1) == c.insert(e.node, e.cost as int));
            lemma_wf_insert(m, c, source, t, max_cost, e);
            assert forall|i: int, j: int| 0 <= i < j < s1.len() implies s1[i].node != s1[j].node by {
                if j == s.len() {
                    assert(m.contains_key(s[i].node));
                } else {
                    assert(s1[i] == s[i] && s1[j] == s[j]);
                }
            }
        }
    }
}

/// Every cell of the region reaches the source by following predecessors, in no more steps than the
/// budget, and the costs of stepping onto the cells of that chain add up to no more than the budget.
pub proof fn lemma_region_paths(source: GridCoords, t: TerrainView, max_cost: usize, k: GridCoords)
    requires
        moveable_region_of(source, t, max_cost).contains_key(k),
    ensures
        exists|n: nat|
            1 <= n <= max_cost && reaches(moveable_region_of(source, t, max_cost), k, n, source)
                && chain_cost(moveable_region_of(source, t, max_cost), t, k, n) <= max_cost,
{
    let items = dijkstra_reach_of(source, t);
    let s = build_entries(source, t, max_cost as int, items);
    lemma_build_wf(source, t, max_cost as int, items);
    lemma_wf_chain(parents_of(s), costs_of(s), source, t, max_cost as int, k);
}

/// The region depends on the terrain, the source and the budget alone: equal inputs give the same
/// cells with the same predecessors.
pub proof fn lemma_region_deterministic(
    s1: GridCoords,
    t1: TerrainView,
    m1: usize,
    s2: GridCoords,
    t2: TerrainView,
    m2: usize,
)
    requires
        s1 == s2,
        t1 == t2,
        m1 == m2,
    ensures
        moveable_region_of(s1, t1, m1) == moveable_region_of(s2, t2, m2),
{
}

} // verus!
