use holmium::arrows::{
    arrow_index_turn_parity, arrow_path, body_glyph, calculate_moveable_region, head_glyph,
    node_neighbours_with_cost, region_from_reach, ArrowChunk, MAXIMUM_COST,
};
use holmium::game::TurnState;
use holmium::tiles::{
    index, TerrainClass, TerrainKind, TileTypes, TilesPlugin, ARROW_BODY_DL, ARROW_BODY_DR,
    ARROW_BODY_H, ARROW_BODY_UL, ARROW_BODY_UR, ARROW_BODY_V, ARROW_HEAD_D, ARROW_HEAD_L,
    ARROW_HEAD_R, ARROW_HEAD_U, EMPTY,
};
use holmium::util::{grid_to_tile, neighbours, offset, GridCoords};

fn g(x: i32, y: i32) -> GridCoords {
    GridCoords { x, y }
}

fn open_grid(w: i32, h: i32) -> TileTypes {
    let mut t = TileTypes::new();
    for x in 0..w {
        for y in 0..h {
            t.insert(TerrainKind::Grassy, g(x, y));
        }
    }
    t
}

#[test]
fn neighbours_are_four_distinct_unit_steps() {
    let c = g(-3, 7);
    let n = neighbours(&c);
    assert_eq!(n, [g(-2, 7), g(-4, 7), g(-3, 8), g(-3, 6)]);
    for i in 0..4 {
        let dx = (n[i].x - c.x).abs();
        let dy = (n[i].y - c.y).abs();
        assert_eq!(dx + dy, 1);
        for j in 0..i {
            assert_ne!(n[i], n[j]);
        }
    }
}

#[test]
fn offset_refuses_to_leave_the_grid() {
    assert_eq!(offset(g(i32::MAX, 0), 1, 0), None);
    assert_eq!(offset(g(1, 2), -1, 1), Some(g(0, 3)));
}

#[test]
fn tile_positions_reinterpret_coordinates() {
    let p = grid_to_tile(g(4, 9));
    assert_eq!((p.x, p.y), (4, 9));
}

#[test]
fn atlas_index_is_row_major() {
    assert_eq!(index(5, 6), 185);
    assert_eq!(index(5, 6), EMPTY);
    assert_eq!(index(0, 0), 0);
}

#[test]
fn int_cells_map_to_terrain_tags() {
    let p = TilesPlugin;
    assert_eq!(p.int_cell_kind(1), Some(TerrainKind::Watery));
    assert_eq!(p.int_cell_kind(2), Some(TerrainKind::Grassy));
    assert_eq!(p.int_cell_kind(3), Some(TerrainKind::Mountainous));
    assert_eq!(p.int_cell_kind(4), Some(TerrainKind::Forested));
    assert_eq!(p.int_cell_kind(0), None);
}

#[test]
fn terrain_classes() {
    let mut t = TileTypes::new();
    t.insert(TerrainKind::Grassy, g(0, 0));
    t.insert(TerrainKind::Forested, g(1, 0));
    t.insert(TerrainKind::Watery, g(2, 0));
    t.insert(TerrainKind::Mountainous, g(3, 0));
    assert_eq!(t.classify(g(0, 0)), TerrainClass::Open);
    assert_eq!(t.classify(g(1, 0)), TerrainClass::Difficult);
    assert_eq!(t.classify(g(2, 0)), TerrainClass::Impassable);
    assert_eq!(t.classify(g(3, 0)), TerrainClass::Impassable);
    assert_eq!(t.classify(g(9, 9)), TerrainClass::Impassable);
}

#[test]
fn successors_carry_step_costs() {
    let mut t = TileTypes::new();
    t.insert(TerrainKind::Grassy, g(1, 0));
    t.insert(TerrainKind::Forested, g(0, 1));
    t.insert(TerrainKind::Watery, g(-1, 0));
    let mut s = node_neighbours_with_cost(&t, &g(0, 0));
    s.sort_by_key(|(c, _)| (c.x, c.y));
    assert_eq!(s, vec![(g(0, 1), 2), (g(1, 0), 1)]);
}

#[test]
fn open_grid_region_holds_every_other_cell() {
    let t = open_grid(5, 5);
    let r = calculate_moveable_region(g(2, 2), &t, MAXIMUM_COST);
    let keys = r.keys();
    assert_eq!(keys.len(), 24);
    assert!(!r.contains_key(g(2, 2)));
    for x in 0..5 {
        for y in 0..5 {
            let e = r.get(g(x, y));
            if (x, y) == (2, 2) {
                assert!(e.is_none());
            } else {
                let e = e.unwrap();
                assert_eq!(e.cost as i32, (x - 2).abs() + (y - 2).abs());
                assert_eq!((e.node.x - e.parent.x).abs() + (e.node.y - e.parent.y).abs(), 1);
            }
        }
    }
}

#[test]
fn region_chains_end_at_source_within_budget() {
    let mut t = open_grid(9, 9);
    t.insert(TerrainKind::Forested, g(4, 9));
    let source = g(4, 4);
    let r = calculate_moveable_region(source, &t, MAXIMUM_COST);
    for k in r.keys() {
        let mut cur = k;
        let mut steps = 0;
        let mut cost = 0;
        while cur != source {
            let e = r.get(cur).unwrap();
            cost += match t.classify(cur) {
                TerrainClass::Open => 1,
                TerrainClass::Difficult => 2,
                TerrainClass::Impassable => panic!("impassable cell in region"),
            };
            cur = e.parent;
            steps += 1;
        }
        assert!(steps <= MAXIMUM_COST);
        assert!(cost <= MAXIMUM_COST);
    }
}

#[test]
fn region_is_deterministic() {
    let mut t = open_grid(7, 7);
    t.insert(TerrainKind::Forested, g(3, 7));
    let a = calculate_moveable_region(g(3, 3), &t, MAXIMUM_COST);
    let b = calculate_moveable_region(g(3, 3), &t, MAXIMUM_COST);
    assert_eq!(a.entries, b.entries);
}

#[test]
fn forest_costs_two() {
    let mut t = TileTypes::new();
    for x in 1..10 {
        t.insert(TerrainKind::Forested, g(x, 0));
    }
    let r = calculate_moveable_region(g(0, 0), &t, MAXIMUM_COST);
    assert!(r.contains_key(g(3, 0)));
    assert_eq!(r.get(g(3, 0)).unwrap().cost, 6);
    assert!(!r.contains_key(g(4, 0)));
}

#[test]
fn budget_is_inclusive() {
    let mut t = TileTypes::new();
    for x in 1..10 {
        t.insert(TerrainKind::Grassy, g(x, 0));
    }
    let r = calculate_moveable_region(g(0, 0), &t, MAXIMUM_COST);
    assert_eq!(r.keys().len(), 6);
    assert!(r.contains_key(g(6, 0)));
    assert!(!r.contains_key(g(7, 0)));
}

#[test]
fn boxed_in_source_has_empty_region() {
    let mut t = open_grid(5, 5);
    t.insert(TerrainKind::Grassy, g(10, 10));
    for c in [g(11, 10), g(9, 10), g(10, 11), g(10, 9)] {
        t.insert(TerrainKind::Mountainous, c);
    }
    let r = calculate_moveable_region(g(10, 10), &t, MAXIMUM_COST);
    assert_eq!(r.keys().len(), 0);
}

#[test]
fn impassable_cell_east_is_never_in_region() {
    let mut t = TileTypes::new();
    for x in 0..5 {
        for y in 0..5 {
            if (x, y) != (3, 2) {
                t.insert(TerrainKind::Grassy, g(x, y));
            }
        }
    }
    t.insert(TerrainKind::Watery, g(3, 2));
    let r = calculate_moveable_region(g(2, 2), &t, MAXIMUM_COST);
    assert!(!r.contains_key(g(3, 2)));
    assert_eq!(r.get(g(4, 2)).unwrap().cost, 4);
}

#[test]
fn builder_drops_cells_that_do_not_chain_to_the_source() {
    let t = open_grid(5, 5);
    let items = vec![
        (g(0, 0), None),
        (g(1, 0), Some(g(0, 0))),
        (g(3, 3), Some(g(2, 3))),
        (g(2, 0), Some(g(0, 0))),
        (g(1, 0), Some(g(1, 1))),
        (g(2, 0), Some(g(1, 0))),
    ];
    let r = region_from_reach(g(0, 0), &t, MAXIMUM_COST, &items);
    assert_eq!(r.keys(), vec![g(1, 0), g(2, 0)]);
    assert_eq!(r.get(g(2, 0)).unwrap().parent, g(1, 0));
    assert_eq!(r.get(g(2, 0)).unwrap().cost, 2);
}

#[test]
fn glyphs_follow_offsets() {
    assert_eq!(head_glyph(-1, 0), ARROW_HEAD_L);
    assert_eq!(head_glyph(1, 0), ARROW_HEAD_R);
    assert_eq!(head_glyph(0, -1), ARROW_HEAD_D);
    assert_eq!(head_glyph(0, 1), ARROW_HEAD_U);
    assert_eq!(body_glyph((-1, 0), (1, 0)), ARROW_BODY_H);
    assert_eq!(body_glyph((0, 1), (0, -1)), ARROW_BODY_V);
    assert_eq!(body_glyph((-1, 0), (0, -1)), ARROW_BODY_UR);
    assert_eq!(body_glyph((0, -1), (-1, 0)), ARROW_BODY_UR);
    assert_eq!(body_glyph((-1, 0), (0, 1)), ARROW_BODY_DR);
    assert_eq!(body_glyph((1, 0), (0, -1)), ARROW_BODY_UL);
    assert_eq!(body_glyph((0, 1), (1, 0)), ARROW_BODY_DL);
}

#[test]
fn second_side_glyphs_are_four_columns_on() {
    assert_eq!(arrow_index_turn_parity(ARROW_BODY_H, &TurnState::Player1), ARROW_BODY_H);
    assert_eq!(arrow_index_turn_parity(ARROW_BODY_H, &TurnState::Player2), ARROW_BODY_H + 4);
}

#[test]
fn path_with_a_corner() {
    let t = open_grid(5, 5);
    let items = vec![
        (g(0, 0), None),
        (g(1, 0), Some(g(0, 0))),
        (g(1, 1), Some(g(1, 0))),
    ];
    let r = region_from_reach(g(0, 0), &t, MAXIMUM_COST, &items);
    let p = arrow_path(&r, g(1, 1), TurnState::Player1);
    assert_eq!(
        p,
        vec![
            ArrowChunk { index: ARROW_HEAD_U, position: g(1, 1) },
            ArrowChunk { index: ARROW_BODY_DR, position: g(1, 0) },
        ]
    );
    assert_eq!(arrow_path(&r, g(0, 0), TurnState::Player1), vec![]);
}
