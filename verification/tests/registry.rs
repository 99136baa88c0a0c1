//! The state registry's persistence boundary: rebuilding state from stored
//! parts and checking well-formedness at run time.

use battleship::game::Match;
use battleship::players::PublicKey;
use battleship::{BattleshipState, GameError};

fn key(tag: u8) -> PublicKey {
    PublicKey([tag; 32])
}

#[test]
fn init_exposes_its_parts() {
    let state = BattleshipState::init(5);
    assert_eq!(state.nonce(), 0);
    assert_eq!(state.created(), 5);
    assert!(state.active().is_none());
}

#[test]
fn from_parts_round_trips_a_state() {
    let a = key(1);
    let b = key(2);
    let mut state = BattleshipState::init(5);
    let id = state.create_match(a, b.to_base58(), 0).unwrap();
    assert_eq!(id, "match-0-1");

    let rebuilt = BattleshipState::from_parts(
        state.nonce(),
        state.created(),
        state.active().clone(),
    )
    .unwrap();
    assert_eq!(rebuilt.nonce(), 1);
    assert_eq!(rebuilt.created(), 5);
    assert_eq!(rebuilt.get_active_match_id().unwrap(), id);
}

#[test]
fn from_parts_rejects_a_malformed_match() {
    let a = key(1);
    let b = key(2);
    let mut m = Match::new("m-1".to_string(), a, b);
    // a turn-holder who is not a player is malformed
    m.turn = key(9);
    assert!(!m.is_well_formed());
    assert!(matches!(
        BattleshipState::from_parts(0, 0, Some(m)),
        Err(GameError::Invalid(_))
    ));
}

#[test]
fn well_formedness_ties_the_pending_fields_together() {
    let a = key(1);
    let b = key(2);
    let mut m = Match::new("m-1".to_string(), a, b);
    assert!(m.is_well_formed());
    m.placed_p1 = true;
    m.placed_p2 = true;
    m.propose_shot(a, 3, 4).unwrap();
    assert!(m.is_well_formed());
    // dropping one pending field breaks the all-or-none rule
    m.pending_y = None;
    assert!(!m.is_well_formed());
}
