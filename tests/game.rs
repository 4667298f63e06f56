use hexboard::axial::Axial;
use hexboard::board::Board;
use hexboard::edge::{PathCoords, PathType};
use hexboard::error::RuleError;
use hexboard::game::Game;
use hexboard::player::Player;
use hexboard::resource::{Resource, ResourceGroup};
use hexboard::vertex::BuildType;

#[test]
fn test_roll() {
    let mut game = Game::new(Player::init_players(4), Board::new());
    let placed = game.board.place_building(0, Axial::new(0, 1), BuildType::Settlement, false);
    assert!(placed.is_ok());

    game.give_resources_for_roll(3);

    let mut res = ResourceGroup::empty();
    res.add_resource(Resource::Wood, 1);
    assert_eq!(game.players[0].resources, res)
}

#[test]
fn test_place_building() {
    let mut game = Game::new(Player::init_players(4), Board::new());

    let b = game.board.place_building(0, Axial::new(0, 2), BuildType::Settlement, false);
    match b {
        Ok(_) => assert!(game.board.vertex(Axial::new(0, 2)).unwrap().owner.is_some_and(|x| x == 0)),
        Err(e) => {
            panic!("Error {:?}", e);
        }
    }
    let c = game.board.place_building(0, Axial::new(0, 2), BuildType::City, false);
    match c {
        Ok(_) => {
            assert!(game.board.vertex(Axial::new(0, 2)).unwrap().owner.is_some_and(|x| x == 0));
            assert_eq!(game.board.vertex(Axial::new(0, 2)).unwrap().build_type, BuildType::City);
        }
        Err(e) => {
            panic!("Error {:?}", e);
        }
    }
}

#[test]
fn test_place_path() {
    let mut game = Game::new(Player::init_players(4), Board::new());
    let path = PathCoords::new(Axial::new(1, 0), Axial::new(0, 1));
    let b = game.board.place_path(&game.players[0], path.clone(), PathType::Road, false);
    match b {
        Ok(_) => assert!(game.board.edge(path).unwrap().owner.is_some_and(|x| x == 0)),
        Err(_) => {
            assert!(false)
        }
    }
}

#[test]
fn new_game_has_full_bank() {
    let game = Game::new(Player::init_players(3), Board::new());
    assert_eq!(game.bank, ResourceGroup::new(20, 20, 20, 20, 20));
    assert_eq!(game.players.len(), 3);
    assert_eq!(game.players[2].id, 2);
    assert!(game.player_with_road.is_none());
    assert!(Game::play().is_ok());
}

#[test]
fn dice_sum_stays_in_range() {
    let mut seen_low = false;
    for _ in 0..500 {
        let r = Game::roll();
        assert!((2..=12).contains(&r));
        if r < 7 {
            seen_low = true;
        }
    }
    assert!(seen_low);
}

#[test]
fn seven_gives_nothing() {
    let mut game = Game::new(Player::init_players(2), Board::new());
    game.board.place_building(1, Axial::new(0, 1), BuildType::Settlement, false).unwrap();
    game.give_resources_for_roll(7);
    assert_eq!(game.players[1].resources, ResourceGroup::empty());
    assert_eq!(game.players[0].resources, ResourceGroup::empty());
    assert_eq!(game.board.yield_for_roll(7), vec![]);
}

#[test]
fn city_earns_two() {
    let mut game = Game::new(Player::init_players(2), Board::new());
    game.board.place_building(1, Axial::new(0, 1), BuildType::Settlement, false).unwrap();
    game.board.place_building(1, Axial::new(0, 1), BuildType::City, false).unwrap();
    game.give_resources_for_roll(3);
    assert_eq!(game.players[1].resources, ResourceGroup::new(0, 0, 0, 0, 2));
    assert_eq!(game.board.place_building(1, Axial::new(0, 1), BuildType::City, false), Err(RuleError::WrongBuildType));
}

#[test]
fn game_builds_keep_player_lists_in_step() {
    let mut game = Game::new(Player::init_players(2), Board::new());
    let v = Axial::new(1, 0);
    let road = PathCoords::new(Axial::new(1, 0), Axial::new(0, 1));
    assert_eq!(game.place_building(1, v, BuildType::Settlement, false), Ok(()));
    assert_eq!(game.players[1].buildings, vec![v]);
    assert_eq!(game.place_building(1, v, BuildType::City, false), Ok(()));
    assert_eq!(game.players[1].buildings, vec![v]);
    assert_eq!(game.place_building(0, v, BuildType::Settlement, false), Err(RuleError::AlreadyOwned));
    assert!(game.players[0].buildings.is_empty());
    assert_eq!(game.place_path(1, road, PathType::Road, true), Ok(()));
    assert_eq!(game.players[1].paths, vec![road]);
    assert_eq!(game.place_path(0, road, PathType::Road, false), Err(RuleError::AlreadyOwned));
    assert!(game.players[0].paths.is_empty());
    assert_eq!(game.board.edge(road).unwrap().owner, Some(1));
}

#[test]
fn discard_flags_follow_hand_size() {
    let mut game = Game::new(Player::init_players(3), Board::new());
    game.players[1].resources = ResourceGroup::new(2, 2, 2, 1, 1);
    game.players[2].resources = ResourceGroup::new(1, 1, 1, 1, 3);
    assert_eq!(game.players[1].resources.total(), 8);
    assert_eq!(game.discard_flags(7), vec![false, true, false]);
}
