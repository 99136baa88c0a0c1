//! Board, coordinate, ship, and fleet geometry checks.

use battleship::board::{Board, Cell, Coordinate, BOARD_SIZE};
use battleship::ships::{Fleet, Ship, ShipValidator};
use battleship::validation::{
    validate_coordinates, validate_fleet_composition, validate_ship_placement,
};
use battleship::GameError;

fn c(x: u8, y: u8) -> Coordinate {
    Coordinate::new(x, y).unwrap()
}

#[test]
fn coordinate_new_accepts_exactly_the_board() {
    for x in 0..BOARD_SIZE {
        for y in 0..BOARD_SIZE {
            let coord = Coordinate::new(x, y).unwrap();
            assert_eq!(coord.x, x);
            assert_eq!(coord.y, y);
            assert!(coord.is_valid());
        }
    }
    assert!(matches!(Coordinate::new(10, 0), Err(GameError::Invalid(_))));
    assert!(matches!(Coordinate::new(0, 10), Err(GameError::Invalid(_))));
    assert!(matches!(Coordinate::new(255, 255), Err(GameError::Invalid(_))));
}

#[test]
fn cell_codes_round_trip() {
    assert_eq!(Cell::Empty.to_u8(), 0);
    assert_eq!(Cell::Ship.to_u8(), 1);
    assert_eq!(Cell::Hit.to_u8(), 2);
    assert_eq!(Cell::Miss.to_u8(), 3);
    assert_eq!(Cell::Pending.to_u8(), 4);
    for code in 0..5u8 {
        assert_eq!(Cell::from_u8(code).to_u8(), code);
    }
    assert_eq!(Cell::from_u8(9), Cell::Empty);
}

#[test]
fn board_get_set_row_major() {
    let mut board = Board::new_zeroed(BOARD_SIZE);
    assert_eq!(board.0.len(), 100);
    assert_eq!(Board::idx(BOARD_SIZE, 3, 2), 23);
    assert!(Board::in_bounds(BOARD_SIZE, 9, 9));
    assert!(!Board::in_bounds(BOARD_SIZE, 10, 0));
    board.set(BOARD_SIZE, 3, 2, Cell::Ship);
    assert_eq!(board.get(BOARD_SIZE, 3, 2), Cell::Ship);
    assert_eq!(board.0[23], 1);
    assert_eq!(board.get(BOARD_SIZE, 2, 3), Cell::Empty);
}

#[test]
fn adjacency_violation_covers_all_eight_neighbors() {
    let mut board = Board::new_zeroed(BOARD_SIZE);
    board.set(BOARD_SIZE, 5, 5, Cell::Ship);
    // all eight neighbors see the ship
    for (x, y) in [
        (4, 4),
        (5, 4),
        (6, 4),
        (4, 5),
        (6, 5),
        (4, 6),
        (5, 6),
        (6, 6),
    ] {
        assert!(board.is_adjacent_violation(BOARD_SIZE, x, y));
    }
    // the ship's own cell has no *neighboring* ship
    assert!(!board.is_adjacent_violation(BOARD_SIZE, 5, 5));
    // two cells away is fine
    assert!(!board.is_adjacent_violation(BOARD_SIZE, 7, 5));
    assert!(!board.is_adjacent_violation(BOARD_SIZE, 0, 0));
}

#[test]
fn ship_new_accepts_straight_contiguous_lists() {
    let ship = Ship::new(vec![c(0, 0), c(0, 1), c(0, 2)]).unwrap();
    assert_eq!(ship.length, 3);
    assert!(ship.is_straight());
    assert!(ship.is_contiguous());

    // order does not matter as long as the run is unbroken
    let ship = Ship::new(vec![c(4, 7), c(2, 7), c(3, 7)]).unwrap();
    assert_eq!(ship.length, 3);

    let ship = Ship::new(vec![c(9, 5), c(9, 6)]).unwrap();
    assert_eq!(ship.length, 2);
}

#[test]
fn ship_new_rejects_bad_shapes() {
    // too short / too long / empty
    assert!(Ship::new(vec![]).is_err());
    assert!(Ship::new(vec![c(0, 0)]).is_err());
    assert!(
        Ship::new(vec![c(0, 0), c(0, 1), c(0, 2), c(0, 3), c(0, 4), c(0, 5)]).is_err()
    );
    // bent
    assert!(Ship::new(vec![c(0, 0), c(0, 1), c(1, 1)]).is_err());
    // diagonal
    assert!(Ship::new(vec![c(0, 0), c(1, 1)]).is_err());
    // gap
    assert!(Ship::new(vec![c(0, 0), c(0, 2)]).is_err());
    // duplicate coordinate
    assert!(Ship::new(vec![c(0, 0), c(0, 0)]).is_err());
}

#[test]
fn ship_overlap_and_adjacency() {
    let a = Ship::new(vec![c(0, 0), c(0, 1)]).unwrap();
    let b = Ship::new(vec![c(0, 1), c(0, 2)]).unwrap();
    let d = Ship::new(vec![c(1, 0), c(1, 1)]).unwrap();
    let far = Ship::new(vec![c(5, 5), c(5, 6)]).unwrap();
    assert!(a.overlaps_with(&b));
    assert!(!a.overlaps_with(&d));
    assert!(a.is_adjacent_to(&d));
    assert!(a.is_adjacent_to(&b));
    assert!(!a.overlaps_with(&far));
    assert!(!a.is_adjacent_to(&far));
}

#[test]
fn fleet_composition_accepts_the_mandated_set() {
    let ships = vec![
        Ship::new(vec![c(0, 0), c(1, 0), c(2, 0), c(3, 0), c(4, 0)]).unwrap(),
        Ship::new(vec![c(0, 2), c(1, 2), c(2, 2), c(3, 2)]).unwrap(),
        Ship::new(vec![c(0, 4), c(1, 4), c(2, 4)]).unwrap(),
        Ship::new(vec![c(0, 6), c(1, 6), c(2, 6)]).unwrap(),
        Ship::new(vec![c(0, 8), c(1, 8)]).unwrap(),
    ];
    let fleet = Fleet::new(ships).unwrap();
    assert_eq!(fleet.total_ships(), 5);
    assert_eq!(fleet.get_ship_count(), 5);
}

#[test]
fn fleet_missing_a_cruiser_fails_composition() {
    // one length-3 ship missing
    let ships = vec![
        Ship::new(vec![c(0, 0), c(1, 0), c(2, 0), c(3, 0), c(4, 0)]).unwrap(),
        Ship::new(vec![c(0, 2), c(1, 2), c(2, 2), c(3, 2)]).unwrap(),
        Ship::new(vec![c(0, 4), c(1, 4), c(2, 4)]).unwrap(),
        Ship::new(vec![c(0, 8), c(1, 8)]).unwrap(),
    ];
    assert!(matches!(Fleet::new(ships), Err(GameError::Invalid(_))));
}

#[test]
fn fleet_with_touching_ships_fails() {
    // the length-4 ship touches the length-5 ship orthogonally
    let ships = vec![
        Ship::new(vec![c(0, 0), c(1, 0), c(2, 0), c(3, 0), c(4, 0)]).unwrap(),
        Ship::new(vec![c(0, 1), c(1, 1), c(2, 1), c(3, 1)]).unwrap(),
        Ship::new(vec![c(0, 4), c(1, 4), c(2, 4)]).unwrap(),
        Ship::new(vec![c(0, 6), c(1, 6), c(2, 6)]).unwrap(),
        Ship::new(vec![c(0, 8), c(1, 8)]).unwrap(),
    ];
    assert!(matches!(Fleet::new(ships), Err(GameError::Invalid(_))));
}

#[test]
fn validate_coordinates_checks_bounds() {
    assert!(validate_coordinates(&[c(0, 0), c(9, 9)], BOARD_SIZE).is_ok());
    let bent = [Coordinate { x: 10, y: 0 }];
    assert!(matches!(
        validate_coordinates(&bent, BOARD_SIZE),
        Err(GameError::Invalid(_))
    ));
}

#[test]
fn placement_validator_sees_board_state() {
    let mut board = Board::new_zeroed(BOARD_SIZE);
    let candidate = [c(0, 0), c(0, 1)];
    assert!(validate_ship_placement(&board, &candidate, BOARD_SIZE).is_ok());

    // mark a ship overlapping the candidate
    board.set(BOARD_SIZE, 0, 1, Cell::Ship);
    assert!(validate_ship_placement(&board, &candidate, BOARD_SIZE).is_err());

    // a ship only diagonally adjacent also rejects the candidate
    let mut board = Board::new_zeroed(BOARD_SIZE);
    board.set(BOARD_SIZE, 1, 2, Cell::Ship);
    assert!(validate_ship_placement(&board, &candidate, BOARD_SIZE).is_err());

    // far away is fine
    let mut board = Board::new_zeroed(BOARD_SIZE);
    board.set(BOARD_SIZE, 9, 9, Cell::Ship);
    assert!(validate_ship_placement(&board, &candidate, BOARD_SIZE).is_ok());
}

#[test]
fn ship_validator_rejects_empty_candidate() {
    let board = Board::new_zeroed(BOARD_SIZE);
    assert!(matches!(
        ShipValidator::validate_ship_placement(&board, BOARD_SIZE, &[]),
        Err(GameError::Invalid(_))
    ));
}

#[test]
fn fleet_composition_validator_checks_counts_and_uniqueness() {
    let coords = vec![
        vec![c(0, 0), c(1, 0)],
        vec![c(0, 2), c(1, 2), c(2, 2)],
        vec![c(0, 4), c(1, 4), c(2, 4)],
        vec![c(0, 6), c(1, 6), c(2, 6), c(3, 6)],
        vec![c(0, 8), c(1, 8), c(2, 8), c(3, 8), c(4, 8)],
    ];
    assert!(validate_fleet_composition([1, 2, 1, 1], coords.clone()).is_ok());
    // wrong counts
    assert!(validate_fleet_composition([2, 1, 1, 1], coords.clone()).is_err());
    // duplicate coordinate across the fleet
    let mut dup = coords.clone();
    dup[0] = vec![c(0, 0), c(0, 2)];
    assert!(validate_fleet_composition([1, 2, 1, 1], dup).is_err());
}
