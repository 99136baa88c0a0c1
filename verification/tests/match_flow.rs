//! Placement, the two-phase shot protocol, win detection, and the match
//! registry, exercised end to end.

use battleship::board::{Board, Cell, BOARD_SIZE};
use battleship::game::{Match, ShotResolver};
use battleship::players::{PlayerBoard, PublicKey};
use battleship::{BattleshipState, GameError};

fn key(tag: u8) -> PublicKey {
    PublicKey([tag; 32])
}

/// A legal fleet: rows 0, 2, 4, 6, 8, each ship starting at column 0.
/// The length-5 ship covers (0,0).
fn fleet_strings() -> Vec<String> {
    vec![
        "0,0;1,0;2,0;3,0;4,0".to_string(),
        "0,2;1,2;2,2;3,2".to_string(),
        "0,4;1,4;2,4".to_string(),
        "0,6;1,6;2,6".to_string(),
        "0,8;1,8".to_string(),
    ]
}

/// Every cell of the fleet above, row-major.
fn fleet_cells() -> Vec<(u8, u8)> {
    let mut cells = Vec::new();
    for x in 0..5u8 {
        cells.push((x, 0));
    }
    for x in 0..4u8 {
        cells.push((x, 2));
    }
    for x in 0..3u8 {
        cells.push((x, 4));
    }
    for x in 0..3u8 {
        cells.push((x, 6));
    }
    for x in 0..2u8 {
        cells.push((x, 8));
    }
    cells
}

fn count_ship_cells(board: &Board) -> usize {
    board.0.iter().filter(|&&b| b == 1).count()
}

#[test]
fn public_key_base58_round_trip() {
    let zero = key(0);
    // 32 zero bytes encode as 32 leading-zero digits
    assert_eq!(zero.to_base58(), "11111111111111111111111111111111");
    let k = key(7);
    let text = k.to_base58();
    let back = PublicKey::from_base58(text.as_str()).unwrap();
    assert!(back == k);
    assert_eq!(back.0, k.0);
}

#[test]
fn public_key_from_base58_rejects_bad_input() {
    // '!' is not in the base58 alphabet
    assert!(matches!(
        PublicKey::from_base58("!!!"),
        Err(GameError::Invalid(_))
    ));
    // decodes, but not to 32 bytes
    assert!(matches!(
        PublicKey::from_base58("11"),
        Err(GameError::Invalid(_))
    ));
}

#[test]
fn place_ships_marks_seventeen_cells() {
    let mut pb = PlayerBoard::new();
    assert!(!pb.is_placed());
    assert_eq!(pb.get_ship_count(), 0);
    pb.place_ships(fleet_strings()).unwrap();
    assert!(pb.is_placed());
    assert_eq!(pb.get_ship_count(), 17);
    assert_eq!(count_ship_cells(pb.get_board()), 17);
    for (x, y) in fleet_cells() {
        assert_eq!(pb.get_board().get(BOARD_SIZE, x, y), Cell::Ship);
    }
    assert_eq!(pb.get_board().get(BOARD_SIZE, 9, 9), Cell::Empty);
}

#[test]
fn place_ships_twice_always_fails() {
    let mut pb = PlayerBoard::new();
    pb.place_ships(fleet_strings()).unwrap();
    let again = pb.place_ships(fleet_strings());
    assert!(matches!(again, Err(GameError::Invalid(_))));
    // and even with different (also bad) input
    let again = pb.place_ships(vec!["0,0;0,1".to_string()]);
    assert!(matches!(again, Err(GameError::Invalid(_))));
    assert_eq!(pb.get_ship_count(), 17);
}

#[test]
fn place_ships_rejects_incomplete_fleet_atomically() {
    let mut pb = PlayerBoard::new();
    // missing one length-3 ship
    let partial = vec![
        "0,0;1,0;2,0;3,0;4,0".to_string(),
        "0,2;1,2;2,2;3,2".to_string(),
        "0,4;1,4;2,4".to_string(),
        "0,8;1,8".to_string(),
    ];
    assert!(matches!(
        pb.place_ships(partial),
        Err(GameError::Invalid(_))
    ));
    // nothing committed
    assert!(!pb.is_placed());
    assert_eq!(pb.get_ship_count(), 0);
    assert_eq!(count_ship_cells(pb.get_board()), 0);
}

#[test]
fn place_ships_rejects_touching_ships() {
    let mut pb = PlayerBoard::new();
    // the two-cell ships touch diagonally/orthogonally
    let touching = vec![
        "0,0;1,0;2,0;3,0;4,0".to_string(),
        "0,2;1,2;2,2;3,2".to_string(),
        "0,4;1,4;2,4".to_string(),
        "0,6;1,6;2,6".to_string(),
        "0,7;1,7".to_string(),
    ];
    assert!(matches!(
        pb.place_ships(touching),
        Err(GameError::Invalid(_))
    ));
    assert!(!pb.is_placed());
    assert_eq!(count_ship_cells(pb.get_board()), 0);
}

#[test]
fn place_ships_rejects_empty_submission() {
    let mut pb = PlayerBoard::new();
    assert!(matches!(
        pb.place_ships(vec![]),
        Err(GameError::Invalid(_))
    ));
}

#[test]
fn decrement_ships_saturates_at_zero() {
    let mut pb = PlayerBoard::new();
    pb.decrement_ships();
    assert_eq!(pb.get_ship_count(), 0);
    pb.place_ships(fleet_strings()).unwrap();
    pb.decrement_ships();
    assert_eq!(pb.get_ship_count(), 16);
}

#[test]
fn player_board_from_parts_checks_well_formedness() {
    let pb = PlayerBoard::from_parts(vec![0; 100], 0, false).unwrap();
    assert!(!pb.is_placed());
    assert!(PlayerBoard::from_parts(vec![0; 99], 0, false).is_err());
    assert!(PlayerBoard::from_parts(vec![0; 100], 1, false).is_err());
    let mut dirty = vec![0; 100];
    dirty[3] = 1;
    assert!(PlayerBoard::from_parts(dirty.clone(), 0, false).is_err());
    // a placed board may carry any full grid
    let pb = PlayerBoard::from_parts(dirty, 1, true).unwrap();
    assert!(pb.is_placed());
    assert_eq!(pb.get_ship_count(), 1);
}

#[test]
fn match_basics() {
    let a = key(1);
    let b = key(2);
    let m = Match::new("m-1".to_string(), a, b);
    assert!(m.is_player(&a));
    assert!(m.is_player(&b));
    assert!(!m.is_player(&key(3)));
    assert!(m.get_opponent(&a) == b);
    assert!(m.get_opponent(&b) == a);
    assert!(m.is_turn(&a));
    assert!(!m.is_turn(&b));
    assert!(!m.is_finished());
    assert!(!m.both_players_placed());
    assert!(!m.has_pending_shot());
}

#[test]
fn switch_turn_alternates() {
    let a = key(1);
    let b = key(2);
    let mut m = Match::new("m-1".to_string(), a, b);
    m.switch_turn();
    assert!(m.is_turn(&b));
    m.switch_turn();
    assert!(m.is_turn(&a));
}

#[test]
fn propose_shot_needs_both_placements_and_no_pending() {
    let a = key(1);
    let b = key(2);
    let mut m = Match::new("m-1".to_string(), a, b);

    // before placement
    assert!(matches!(
        m.propose_shot(a, 0, 0),
        Err(GameError::Invalid(_))
    ));

    m.placed_p1 = true;
    assert!(matches!(
        m.propose_shot(a, 0, 0),
        Err(GameError::Invalid(_))
    ));
    m.placed_p2 = true;

    // out of bounds
    assert!(matches!(
        m.propose_shot(a, 10, 0),
        Err(GameError::Invalid(_))
    ));
    // not a player
    assert!(matches!(
        m.propose_shot(key(9), 0, 0),
        Err(GameError::Forbidden(_))
    ));
    // not their turn
    assert!(matches!(
        m.propose_shot(b, 0, 0),
        Err(GameError::Forbidden(_))
    ));

    m.propose_shot(a, 4, 5).unwrap();
    assert!(m.has_pending_shot());
    assert_eq!(m.shots_p1.get(BOARD_SIZE, 4, 5), Cell::Pending);
    // turn is not switched yet
    assert!(m.is_turn(&a));

    // a second proposal while one is pending
    assert!(matches!(
        m.propose_shot(a, 1, 1),
        Err(GameError::Invalid(_))
    ));
}

#[test]
fn acknowledge_shot_requires_the_recorded_target() {
    let a = key(1);
    let b = key(2);
    let mut m = Match::new("m-1".to_string(), a, b);
    assert!(matches!(
        m.acknowledge_shot(b),
        Err(GameError::Invalid(_))
    ));
    m.placed_p1 = true;
    m.placed_p2 = true;
    m.propose_shot(a, 0, 0).unwrap();
    assert!(matches!(
        m.acknowledge_shot(a),
        Err(GameError::Forbidden(_))
    ));
    let s = m.acknowledge_shot(b).unwrap();
    assert_eq!(s, "acknowledged");
    // acknowledging mutates nothing: still pending
    assert!(m.has_pending_shot());
}

/// P9: a shot at a ship cell is a hit: the target's counter drops by one,
/// the shooter's history shows `Hit`, and the target's board shows `Hit`.
#[test]
fn resolving_a_hit_updates_both_sides() {
    let a = key(1);
    let b = key(2);
    let mut m = Match::new("m-1".to_string(), a, b);
    let mut pb_b = PlayerBoard::new();
    pb_b.place_ships(fleet_strings()).unwrap();
    m.placed_p1 = true;
    m.placed_p2 = true;

    m.propose_shot(a, 0, 0).unwrap();
    m.acknowledge_shot(b).unwrap();
    let result = ShotResolver::resolve_shot(&mut m, &mut pb_b).unwrap();
    assert_eq!(result, "hit");
    assert_eq!(pb_b.get_ship_count(), 16);
    assert_eq!(pb_b.get_board().get(BOARD_SIZE, 0, 0), Cell::Hit);
    assert_eq!(m.shots_p1.get(BOARD_SIZE, 0, 0), Cell::Hit);
    assert!(!m.has_pending_shot());
    assert!(m.winner.is_none());
    // turn passed to the opponent
    assert!(m.is_turn(&b));
}

/// P10: a shot at open water is a miss: the shooter's history shows `Miss`
/// and the turn passes to the opponent.
#[test]
fn resolving_a_miss_passes_the_turn() {
    let a = key(1);
    let b = key(2);
    let mut m = Match::new("m-1".to_string(), a, b);
    let mut pb_b = PlayerBoard::new();
    pb_b.place_ships(fleet_strings()).unwrap();
    m.placed_p1 = true;
    m.placed_p2 = true;

    m.propose_shot(a, 9, 9).unwrap();
    m.acknowledge_shot(b).unwrap();
    let result = ShotResolver::resolve_shot(&mut m, &mut pb_b).unwrap();
    assert_eq!(result, "miss");
    assert_eq!(pb_b.get_ship_count(), 17);
    assert_eq!(m.shots_p1.get(BOARD_SIZE, 9, 9), Cell::Miss);
    assert!(m.winner.is_none());
    assert!(m.is_turn(&b));
}

#[test]
fn resolver_without_pending_shot_fails() {
    let a = key(1);
    let b = key(2);
    let mut m = Match::new("m-1".to_string(), a, b);
    let mut pb_b = PlayerBoard::new();
    assert!(matches!(
        ShotResolver::resolve_shot(&mut m, &mut pb_b),
        Err(GameError::Invalid(_))
    ));
}

/// P8: sinking the last ship cell makes the shooter the winner and the
/// turn does not switch away.
#[test]
fn sinking_the_fleet_wins_the_match() {
    let a = key(1);
    let b = key(2);
    let mut m = Match::new("m-1".to_string(), a, b);
    let mut pb_a = PlayerBoard::new();
    let mut pb_b = PlayerBoard::new();
    pb_a.place_ships(fleet_strings()).unwrap();
    pb_b.place_ships(fleet_strings()).unwrap();
    m.placed_p1 = true;
    m.placed_p2 = true;

    let cells = fleet_cells();
    assert_eq!(cells.len(), 17);
    for (i, (x, y)) in cells.iter().enumerate() {
        // A fires at one of B's ship cells
        m.propose_shot(a, *x, *y).unwrap();
        m.acknowledge_shot(b).unwrap();
        let r = ShotResolver::resolve_shot(&mut m, &mut pb_b).unwrap();
        assert_eq!(r, "hit");
        assert_eq!(pb_b.get_ship_count() as usize, 17 - (i + 1));
        if i + 1 < 17 {
            assert!(m.winner.is_none());
            assert!(m.is_turn(&b));
            // B fires into open water and the turn comes back to A
            m.propose_shot(b, 9, 9).unwrap();
            m.acknowledge_shot(a).unwrap();
            let r = ShotResolver::resolve_shot(&mut m, &mut pb_a).unwrap();
            assert_eq!(r, "miss");
            assert!(m.is_turn(&a));
        }
    }
    assert!(m.winner == Some(a));
    assert!(m.is_finished());
    // the winning hit did not switch the turn
    assert!(m.is_turn(&a));
    // the finished match refuses further shots
    assert!(matches!(m.propose_shot(b, 0, 0), Err(GameError::Finished)));
}

#[test]
fn state_creates_matches_with_fresh_identifiers() {
    let a = key(1);
    let b = key(2);
    let mut state = BattleshipState::init(0);
    assert!(state.get_active_match_id().is_none());
    assert!(state.get_current_turn().is_none());

    let id = state.create_match(a, b.to_base58(), 123).unwrap();
    assert_eq!(id, "match-123-1");
    assert_eq!(state.get_active_match_id().unwrap(), id);
    assert_eq!(state.get_current_turn().unwrap(), a.to_base58());

    // a second match while one is running
    assert!(matches!(
        state.create_match(a, b.to_base58(), 124),
        Err(GameError::Invalid(_))
    ));
}

#[test]
fn state_rejects_bad_or_equal_players() {
    let a = key(1);
    let mut state = BattleshipState::init(0);
    assert!(matches!(
        state.create_match(a, "!!!".to_string(), 1),
        Err(GameError::Invalid(_))
    ));
    assert!(matches!(
        state.create_match(a, a.to_base58(), 1),
        Err(GameError::Invalid(_))
    ));
}

#[test]
fn state_runs_a_full_exchange() {
    let a = key(1);
    let b = key(2);
    let mut state = BattleshipState::init(0);
    let id = state.create_match(a, b.to_base58(), 7).unwrap();

    let mut pb_a = PlayerBoard::new();
    let mut pb_b = PlayerBoard::new();

    // wrong identifier
    assert!(matches!(
        state.place_ships("match-7-9", fleet_strings(), a, &mut pb_a),
        Err(GameError::NotFound(_))
    ));
    // an outsider may not place
    assert!(matches!(
        state.place_ships(id.as_str(), fleet_strings(), key(9), &mut pb_a),
        Err(GameError::Forbidden(_))
    ));

    state
        .place_ships(id.as_str(), fleet_strings(), a, &mut pb_a)
        .unwrap();

    // shooting before both have placed
    assert!(matches!(
        state.propose_shot(id.as_str(), 0, 0, a),
        Err(GameError::Invalid(_))
    ));

    state
        .place_ships(id.as_str(), fleet_strings(), b, &mut pb_b)
        .unwrap();

    state.propose_shot(id.as_str(), 0, 0, a).unwrap();

    // the target sees the pending shot overlaid on their own board
    let view = state.get_own_board(id.as_str(), b, &pb_b).unwrap();
    assert_eq!(view.size, BOARD_SIZE);
    assert_eq!(view.board[0], Cell::Pending.to_u8());
    // the shooter's own board is not overlaid
    let view_a = state.get_own_board(id.as_str(), a, &pb_a).unwrap();
    assert_eq!(view_a.board[0], Cell::Ship.to_u8());

    // only the target may acknowledge
    assert!(matches!(
        state.acknowledge_shot(id.as_str(), a, &mut pb_b),
        Err(GameError::Forbidden(_))
    ));
    let outcome = state.acknowledge_shot(id.as_str(), b, &mut pb_b).unwrap();
    assert_eq!(outcome, "hit");
    assert_eq!(pb_b.get_ship_count(), 16);

    let shots = state.get_shots(id.as_str(), a).unwrap();
    assert_eq!(shots.size, BOARD_SIZE);
    assert_eq!(shots.shots[0], Cell::Hit.to_u8());
    // an outsider may not read shot histories
    assert!(matches!(
        state.get_shots(id.as_str(), key(9)),
        Err(GameError::Forbidden(_))
    ));

    // the turn passed to the second player
    assert_eq!(state.get_current_turn().unwrap(), b.to_base58());
}
