use holmium::arrows::ArrowChunk;
use holmium::game::{Game, GameState, TurnState};
use holmium::input::{movement_events, KeyCode, MovementInput};
use holmium::tiles::{TerrainKind, TileTypes, ARROW_BODY_H, ARROW_HEAD_L, ARROW_HEAD_R, BACKDROP_BLUE, BACKDROP_RED};
use holmium::units::{
    association_from_identifier, create_unit, BackdropBundle, UnitAssociation, UnitAssociations, UnitSpawnLocation,
    UnitSpawnQueues, UnitSpawnTypes,
};
use holmium::util::GridCoords;

fn g(x: i32, y: i32) -> GridCoords {
    GridCoords { x, y }
}

fn grid(w: i32, h: i32, blocked: &[GridCoords]) -> TileTypes {
    let mut t = TileTypes::new();
    for x in 0..w {
        for y in 0..h {
            if blocked.contains(&g(x, y)) {
                t.insert(TerrainKind::Watery, g(x, y));
            } else {
                t.insert(TerrainKind::Grassy, g(x, y));
            }
        }
    }
    t
}

fn right() -> MovementInput {
    MovementInput { up: false, down: false, left: false, right: true }
}

fn left() -> MovementInput {
    MovementInput { up: false, down: false, left: true, right: false }
}

fn up() -> MovementInput {
    MovementInput { up: true, down: false, left: false, right: false }
}

/// A game on a grid with one unit of each side, the cursor on the first side's unit.
fn game_with_units(blocked: &[GridCoords]) -> Game {
    let mut game = Game::new(grid(5, 5, blocked));
    game.spawn_unit(UnitSpawnTypes::Knight, g(2, 2), TurnState::Player1);
    game.spawn_unit(UnitSpawnTypes::Wizard, g(0, 4), TurnState::Player2);
    game.move_cursor(Some(MovementInput { up: true, down: false, left: false, right: true }), false);
    game.move_cursor(Some(MovementInput { up: true, down: false, left: false, right: true }), false);
    assert_eq!(game.cursor.position, g(2, 2));
    game
}

#[test]
fn two_steps_right_draw_head_and_straight_body() {
    let mut game = game_with_units(&[]);
    game.move_cursor(None, true);
    assert_eq!(game.state, GameState::ArrowMovement);
    assert_eq!(game.zones.len(), 24);
    assert_eq!(game.region.keys().len(), 24);
    game.move_arrow_head(right());
    game.move_arrow_head(right());
    assert_eq!(game.arrow_head.0, g(4, 2));
    assert_eq!(
        game.arrows,
        vec![
            ArrowChunk { index: ARROW_HEAD_R, position: g(4, 2) },
            ArrowChunk { index: ARROW_BODY_H, position: g(3, 2) },
        ]
    );
}

#[test]
fn head_cannot_enter_impassable_cell() {
    let mut game = game_with_units(&[g(3, 2)]);
    game.move_cursor(None, true);
    assert_eq!(game.state, GameState::ArrowMovement);
    assert!(!game.region.contains_key(g(3, 2)));
    game.move_arrow_head(right());
    assert_eq!(game.arrow_head.0, g(2, 2));
    assert!(game.arrows.is_empty());
}

#[test]
fn head_may_return_to_source() {
    let mut game = game_with_units(&[]);
    game.move_cursor(None, true);
    game.move_arrow_head(left());
    assert_eq!(game.arrows, vec![ArrowChunk { index: ARROW_HEAD_L, position: g(1, 2) }]);
    game.move_arrow_head(right());
    assert_eq!(game.arrow_head.0, g(2, 2));
    assert!(game.arrows.is_empty());
}

#[test]
fn head_stays_inside_budget() {
    let mut game = Game::new(grid(12, 1, &[]));
    game.spawn_unit(UnitSpawnTypes::Archer, g(0, 0), TurnState::Player1);
    game.move_cursor(None, true);
    for _ in 0..10 {
        game.move_arrow_head(right());
    }
    assert_eq!(game.arrow_head.0, g(6, 0));
    assert_eq!(game.arrows.len(), 6);
}

#[test]
fn other_sides_unit_cannot_be_selected() {
    let mut game = game_with_units(&[]);
    game.move_cursor(Some(left()), false);
    game.move_cursor(Some(left()), false);
    game.move_cursor(Some(up()), false);
    game.move_cursor(Some(up()), false);
    assert_eq!(game.cursor.position, g(0, 4));
    game.move_cursor(None, true);
    assert_eq!(game.state, GameState::CursorMovement);
    assert!(game.targeted.is_none());
}

#[test]
fn empty_cell_cannot_be_selected() {
    let mut game = game_with_units(&[]);
    game.move_cursor(Some(left()), true);
    assert_eq!(game.state, GameState::CursorMovement);
}

#[test]
fn cancel_right_after_select_changes_nothing() {
    let mut game = game_with_units(&[]);
    let units = game.units.clone();
    game.move_cursor(None, true);
    assert_eq!(game.state, GameState::ArrowMovement);
    game.cancel();
    assert_eq!(game.state, GameState::CursorMovement);
    assert_eq!(game.units, units);
    assert_eq!(game.turn, TurnState::Player1);
    assert!(game.targeted.is_none());
    assert!(game.zones.is_empty());
}

#[test]
fn cancel_while_browsing_is_ignored() {
    let mut game = game_with_units(&[]);
    game.cancel();
    assert_eq!(game.state, GameState::CursorMovement);
    assert_eq!(game.cursor.position, g(2, 2));
}

#[test]
fn commit_at_source_is_a_cancel() {
    let mut game = game_with_units(&[]);
    let units = game.units.clone();
    game.move_cursor(None, true);
    game.commit();
    assert_eq!(game.state, GameState::CursorMovement);
    assert_eq!(game.units, units);
    assert_eq!(game.turn, TurnState::Player1);
}

#[test]
fn commit_moves_unit_and_passes_turn() {
    let mut game = game_with_units(&[]);
    game.units[1].moved = true;
    game.move_cursor(None, true);
    game.move_arrow_head(right());
    game.commit();
    assert_eq!(game.state, GameState::CursorMovement);
    assert_eq!(game.turn, TurnState::Player2);
    assert_eq!(game.units[0].position, g(3, 2));
    assert_eq!(game.units[0].backdrop.position, g(3, 2));
    assert!(game.units[0].moved);
    assert!(!game.units[1].moved);
    assert!(game.arrows.is_empty());
    assert_eq!(game.unit_at(g(3, 2)), Some(0));
    assert_eq!(game.unit_at(g(2, 2)), None);
    game.move_cursor(Some(right()), true);
    assert_eq!(game.cursor.position, g(3, 2));
    assert_eq!(game.state, GameState::CursorMovement);
}

#[test]
fn refresh_frees_one_side() {
    let mut game = game_with_units(&[]);
    game.units[0].moved = true;
    game.units[1].moved = true;
    game.refresh_units(TurnState::Player2);
    assert!(game.units[0].moved);
    assert!(!game.units[1].moved);
}

#[test]
fn spawn_markers_take_kinds_from_the_back() {
    let mut game = Game::new(grid(5, 5, &[]));
    let mut queues = UnitSpawnQueues::default();
    assert_eq!(queues.player1, vec![
        UnitSpawnTypes::Knight,
        UnitSpawnTypes::Knight,
        UnitSpawnTypes::Barbarian,
        UnitSpawnTypes::Archer,
        UnitSpawnTypes::Archer,
    ]);
    let locs = vec![
        UnitSpawnLocation { association: UnitAssociation { turn: TurnState::Player1 }, grid_coords: g(0, 0) },
        UnitSpawnLocation { association: UnitAssociation { turn: TurnState::Player2 }, grid_coords: g(4, 4) },
        UnitSpawnLocation { association: UnitAssociation { turn: TurnState::Player1 }, grid_coords: g(1, 0) },
    ];
    game.fill_unit_spawn_locations(&mut queues, &locs);
    assert_eq!(game.units.len(), 3);
    assert_eq!(game.units[0].kind, UnitSpawnTypes::Archer);
    assert_eq!(game.units[0].max_move_cost, 10);
    assert_eq!(game.units[2].position, g(1, 0));
    assert_eq!(game.units[1].association.turn, TurnState::Player2);
    assert_eq!(game.units[1].backdrop.texture_index, BACKDROP_RED);
    assert_eq!(queues.player1.len(), 3);
    assert_eq!(queues.player2.len(), 4);
    assert!(game.associations.contains(1, TurnState::Player2));
    assert!(!game.associations.contains(1, TurnState::Player1));
    assert!(game.associations.contains(2, TurnState::Player1));
}

#[test]
fn marker_without_queued_kind_places_nothing() {
    let mut game = Game::new(grid(5, 5, &[]));
    let mut queues = UnitSpawnQueues { player1: vec![], player2: vec![UnitSpawnTypes::Cleric] };
    let locs = vec![
        UnitSpawnLocation { association: UnitAssociation { turn: TurnState::Player1 }, grid_coords: g(0, 0) },
        UnitSpawnLocation { association: UnitAssociation { turn: TurnState::Player2 }, grid_coords: g(4, 4) },
    ];
    game.fill_unit_spawn_locations(&mut queues, &locs);
    assert_eq!(game.units.len(), 1);
    assert_eq!(game.units[0].kind, UnitSpawnTypes::Cleric);
}

#[test]
fn new_units_have_fixed_stats() {
    let a = create_unit(UnitSpawnTypes::Archer, g(1, 1), TurnState::Player1);
    assert_eq!(a.health, 30);
    assert_eq!(a.max_move_cost, 10);
    assert!(!a.moved);
    assert_eq!(a.backdrop, BackdropBundle::new(TurnState::Player1, g(1, 1)));
    assert_eq!(a.backdrop.texture_index, BACKDROP_BLUE);
    let k = create_unit(UnitSpawnTypes::Knight, g(1, 1), TurnState::Player2);
    assert_eq!(k.max_move_cost, 6);
    assert_eq!(UnitSpawnTypes::Wizard.max_move_cost(), 6);
}

#[test]
fn associations_index() {
    let mut a = UnitAssociations::new();
    a.insert(3, TurnState::Player2);
    assert!(a.contains(3, TurnState::Player2));
    assert!(!a.contains(3, TurnState::Player1));
    assert!(!a.contains(4, TurnState::Player2));
}

#[test]
fn diagonal_input_moves_both_axes() {
    let m = MovementInput { up: true, down: false, left: true, right: false };
    assert_eq!(m.as_grid_coords(), g(-1, 1));
    let n = MovementInput { up: true, down: true, left: false, right: false };
    assert_eq!(n.as_grid_coords(), g(0, 0));
}

#[test]
fn keys_of_each_side() {
    let jp = vec![KeyCode::KeyW, KeyCode::KeyD];
    assert_eq!(
        movement_events(TurnState::Player1, &jp, &jp),
        Some(MovementInput { up: true, down: false, left: false, right: true })
    );
    assert_eq!(movement_events(TurnState::Player2, &jp, &jp), None);
    let jp2 = vec![KeyCode::KeyJ];
    let held = vec![KeyCode::KeyJ, KeyCode::KeyK];
    assert_eq!(
        movement_events(TurnState::Player2, &jp2, &held),
        Some(MovementInput { up: false, down: false, left: true, right: false })
    );
    assert_eq!(
        movement_events(TurnState::Player2, &vec![], &held),
        Some(MovementInput { up: false, down: false, left: false, right: false })
    );
    assert_eq!(movement_events(TurnState::Player1, &vec![KeyCode::Enter], &vec![]), None);
}

#[test]
fn turns_alternate() {
    assert_eq!(TurnState::Player1.other(), TurnState::Player2);
    assert_eq!(TurnState::Player2.other(), TurnState::Player1);
}

#[test]
fn marker_side_from_identifier() {
    assert_eq!(association_from_identifier('B'), Some(UnitAssociation { turn: TurnState::Player1 }));
    assert_eq!(association_from_identifier('R'), Some(UnitAssociation { turn: TurnState::Player2 }));
    assert_eq!(association_from_identifier('X'), None);
}

#[test]
fn backdrops_follow_units() {
    let mut game = game_with_units(&[]);
    game.units[0].position = g(4, 4);
    game.update_backdrop_positions();
    assert_eq!(game.units[0].backdrop.position, g(4, 4));
    assert_eq!(game.units[1].backdrop.position, g(0, 4));
}
