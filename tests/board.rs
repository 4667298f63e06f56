use hexboard::axial::{are_adjacent, Axial};
use hexboard::board::{standard_layout, Board};
use hexboard::edge::{PathCoords, PathType};
use hexboard::error::RuleError;
use hexboard::player::Player;
use hexboard::resource::{Resource, ResourceGroup};
use hexboard::vertex::BuildType;

#[test]
fn standard_board_shape() {
    let board = Board::new();
    assert_eq!(board.hexes.len(), 19);
    assert_eq!(board.hexes.iter().filter(|h| h.number == 0).count(), 1);
    assert_eq!(board.robber, Axial::new(0, 0));
    assert_eq!(board.vertices.len(), 54);
    assert_eq!(board.edges.len(), 72);
    assert!(board.harbors.is_empty());
    for v in &board.vertices {
        let degree = board.edges.iter().filter(|e| e.path_coords.contains(v.pos)).count();
        assert!(degree <= 3 && degree >= 2);
        assert!(v.owner.is_none());
    }
    for e in &board.edges {
        assert!(are_adjacent(e.path_coords.a, e.path_coords.b));
        assert!(e.path_coords.a.less_than(&e.path_coords.b));
        assert!(board.vertex(e.path_coords.a).is_some());
        assert!(board.vertex(e.path_coords.b).is_some());
    }
}

#[test]
fn from_layout_matches_new() {
    let board = Board::from_layout(standard_layout());
    assert_eq!(board.vertices.len(), Board::new().vertices.len());
    assert_eq!(board.hexes[2].pos, Axial::new(2, 2));
}

#[test]
fn adjacent_vertices_of_a_corner() {
    let board = Board::new();
    let around = board.get_adjacent_vertices(Axial::new(1, 0));
    assert_eq!(around.len(), 3);
    for v in &around {
        assert!(are_adjacent(Axial::new(1, 0), v.pos));
    }
    assert_eq!(board.get_adjacent_vertices(Axial::new(0, 0)).len(), 6);
}

#[test]
fn settlement_then_blocked() {
    let mut board = Board::new();
    let v = Axial::new(0, 2);
    assert_eq!(board.validate_settlement(0, v, false), Ok(()));
    assert_eq!(board.place_building(0, v, BuildType::Settlement, false), Ok(()));
    let placed = board.vertex(v).unwrap();
    assert_eq!(placed.owner, Some(0));
    assert_eq!(placed.build_type, BuildType::Settlement);
    assert_eq!(board.place_building(1, v, BuildType::Settlement, false), Err(RuleError::AlreadyOwned));
    for n in board.get_adjacent_vertices(v) {
        assert_eq!(board.place_building(1, n.pos, BuildType::Settlement, false), Err(RuleError::NeighborOccupied));
    }
    assert_eq!(board.place_building(1, Axial::new(50, 50), BuildType::Settlement, false), Err(RuleError::NoSuchVertex));
    assert_eq!(board.place_building(1, Axial::new(1, 0), BuildType::Empty, false), Err(RuleError::WrongBuildType));
}

#[test]
fn settlement_needs_road_when_connected() {
    let mut board = Board::new();
    let players = Player::init_players(2);
    let v = Axial::new(1, 0);
    assert_eq!(board.place_building(0, v, BuildType::Settlement, true), Err(RuleError::Disconnected));
    let road = PathCoords::new(Axial::new(1, 0), Axial::new(0, 1));
    assert_eq!(board.place_path(&players[0], road, PathType::Road, true), Err(RuleError::Disconnected));
    assert_eq!(board.place_path(&players[0], road, PathType::Road, false), Ok(()));
    assert_eq!(board.place_building(1, v, BuildType::Settlement, true), Err(RuleError::Disconnected));
    assert_eq!(board.place_building(0, v, BuildType::Settlement, true), Ok(()));
    let next = PathCoords::new(Axial::new(0, 1), Axial::new(-1, 1));
    assert_eq!(board.place_path(&players[0], next, PathType::Road, true), Ok(()));
    assert_eq!(board.place_path(&players[1], next, PathType::Road, false), Err(RuleError::AlreadyOwned));
    let far = PathCoords::new(Axial::new(0, 0), Axial::new(5, 5));
    assert_eq!(board.place_path(&players[1], far, PathType::Road, false), Err(RuleError::NoSuchEdge));
    assert!(!board.is_valid_path_coords(&next));
}

#[test]
fn city_rules() {
    let mut board = Board::new();
    let v = Axial::new(0, 2);
    assert_eq!(board.validate_city(0, v), Err(RuleError::WrongBuildType));
    board.place_building(1, v, BuildType::Settlement, false).unwrap();
    assert_eq!(board.validate_city(0, v), Err(RuleError::NotOwnedByPlayer));
    assert_eq!(board.place_building(0, v, BuildType::City, false), Err(RuleError::NotOwnedByPlayer));
    assert_eq!(board.validate_city(1, v), Ok(()));
    assert_eq!(board.validate_city(1, Axial::new(0, 0)), Err(RuleError::NoSuchVertex));
}

#[test]
fn valid_spots_track_placements() {
    let mut board = Board::new();
    let all = board.get_valid_build_spots(BuildType::Settlement, 0, false);
    assert_eq!(all.len(), 54);
    assert!(board.get_valid_build_spots(BuildType::City, 0, false).is_empty());
    board.place_building(0, Axial::new(0, 2), BuildType::Settlement, false).unwrap();
    let after = board.get_valid_build_spots(BuildType::Settlement, 1, false);
    assert!(!after.contains(&Axial::new(0, 2)));
    for n in board.get_adjacent_vertices(Axial::new(0, 2)) {
        assert!(!after.contains(&n.pos));
    }
    assert_eq!(after.len(), 54 - 1 - board.get_adjacent_vertices(Axial::new(0, 2)).len());
    assert_eq!(board.get_valid_build_spots(BuildType::City, 0, false), vec![Axial::new(0, 2)]);
}

#[test]
fn roll_nine_pays_wood_to_owner_only() {
    let mut board = Board::new();
    board.place_building(0, Axial::new(3, 2), BuildType::Settlement, false).unwrap();
    let ys = board.yield_for_roll(9);
    assert_eq!(ys, vec![(0, ResourceGroup::new(0, 0, 0, 0, 1))]);
    assert_eq!(ys[0].1.get(Resource::Wood), 1);
}

#[test]
fn robber_blocks_its_tile_only() {
    let mut board = Board::new();
    board.place_building(0, Axial::new(3, 2), BuildType::Settlement, false).unwrap();
    board.place_building(1, Axial::new(2, -3), BuildType::Settlement, false).unwrap();
    let before = board.yield_for_roll(9);
    assert_eq!(before.len(), 2);
    assert_eq!(board.move_robber(Axial::new(2, 2)), Ok(()));
    let after = board.yield_for_roll(9);
    assert_eq!(after, vec![(1, ResourceGroup::new(0, 1, 0, 0, 0))]);
    assert_eq!(board.move_robber(Axial::new(1, 0)), Err(RuleError::NoSuchHex));
    assert_eq!(board.robber, Axial::new(2, 2));
}
