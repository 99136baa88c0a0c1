//! Match management: the turn and ownership state machine coordinating two
//! players through the two-phase shot protocol, and the shot resolver that
//! bridges the match with the target's private board.

use crate::board::{board_index, board_wf, cell_value, Board, Cell, BOARD_SIZE};
use crate::players::{PlayerBoard, PublicKey};
use crate::GameError;
use vstd::prelude::*;

verus! {

/// The shared state of one match: player identities, turn, winner,
/// placement flags, the optional pending shot, and both shot histories.
///
/// The phases are derived from the fields: setup until both players have
/// placed, then active play, with at most one pending shot at a time, until
/// a winner is set; a finished match accepts no further moves.
#[derive(Debug, Clone)]
pub struct Match {
    /// Unique identifier of the match.
    pub id: String,
    /// The first player.
    pub player1: PublicKey,
    /// The second player.
    pub player2: PublicKey,
    /// Whose turn it is.
    pub turn: PublicKey,
    /// The winner, once determined. Terminal: never unset.
    pub winner: Option<PublicKey>,
    /// Whether the first player has completed placement.
    pub placed_p1: bool,
    /// Whether the second player has completed placement.
    pub placed_p2: bool,
    /// Column of the pending shot.
    pub pending_x: Option<u8>,
    /// Row of the pending shot.
    pub pending_y: Option<u8>,
    /// Who proposed the pending shot.
    pub pending_shooter: Option<PublicKey>,
    /// Who the pending shot is aimed at.
    pub pending_target: Option<PublicKey>,
    /// The first player's shot history.
    pub shots_p1: Board,
    /// The second player's shot history.
    pub shots_p2: Board,
}

impl Match {
    /// Whether the given key is one of the two players.
    pub open spec fn spec_is_player(self, p: PublicKey) -> bool {
        p == self.player1 || p == self.player2
    }

    /// The other player.
    pub open spec fn spec_opponent(self, p: PublicKey) -> PublicKey {
        if p == self.player1 {
            self.player2
        } else {
            self.player1
        }
    }

    /// Whether a winner has been set.
    pub open spec fn spec_finished(self) -> bool {
        self.winner is Some
    }

    /// Whether both players have completed placement.
    pub open spec fn spec_both_placed(self) -> bool {
        self.placed_p1 && self.placed_p2
    }

    /// Whether a shot is pending.
    pub open spec fn spec_has_pending(self) -> bool {
        self.pending_x is Some
    }

    /// Well-formedness: the two players differ, the turn-holder is a
    /// player, both shot histories cover the grid, and the four pending
    /// fields are all present or all absent; when present, the coordinates
    /// are on the board, the shooter is the turn-holder, and the target is
    /// the shooter's opponent.
    pub open spec fn wf(self) -> bool {
        &&& board_wf(self.shots_p1@, BOARD_SIZE)
        &&& board_wf(self.shots_p2@, BOARD_SIZE)
        &&& self.player1 != self.player2
        &&& self.spec_is_player(self.turn)
        &&& (self.pending_x is Some <==> self.pending_y is Some)
        &&& (self.pending_x is Some <==> self.pending_shooter is Some)
        &&& (self.pending_x is Some <==> self.pending_target is Some)
        &&& (self.pending_x matches Some(x) ==> x < BOARD_SIZE)
        &&& (self.pending_y matches Some(y) ==> y < BOARD_SIZE)
        &&& (self.pending_shooter matches Some(s) ==> s == self.turn && self.spec_is_player(s))
        &&& (self.pending_target matches Some(t) ==> self.pending_shooter matches Some(s) && t
            == self.spec_opponent(s))
    }

    /// Fields no shot operation ever changes.
    pub open spec fn same_static(a: Match, b: Match) -> bool {
        &&& a.id == b.id
        &&& a.player1 == b.player1
        &&& a.player2 == b.player2
        &&& a.placed_p1 == b.placed_p1
        &&& a.placed_p2 == b.placed_p2
    }

    /// Creates a match between two distinct players: the first player
    /// starts, nothing is placed, no shot is pending, no winner.
    pub fn new(id: String, player1: PublicKey, player2: PublicKey) -> (r: Match)
        requires
            player1 != player2,
        ensures
            r.wf(),
            r.id == id,
            r.player1 == player1,
            r.player2 == player2,
            r.turn == player1,
            r.winner is None,
            !r.placed_p1 && !r.placed_p2,
            !r.spec_has_pending(),
            forall|i: int| 0 <= i < r.shots_p1@.len() ==> r.shots_p1@[i] == 0,
            forall|i: int| 0 <= i < r.shots_p2@.len() ==> r.shots_p2@[i] == 0,
    {
        Match {
            id,
            player1,
            player2,
            turn: player1,
            winner: None,
            placed_p1: false,
            placed_p2: false,
            pending_x: None,
            pending_y: None,
            pending_shooter: None,
            pending_target: None,
            shots_p1: Board::new_zeroed(BOARD_SIZE),
            shots_p2: Board::new_zeroed(BOARD_SIZE),
        }
    }

    /// Whether the given key is one of the two players.
    pub fn is_player(&self, player: &PublicKey) -> (r: bool)
        ensures
            r == self.spec_is_player(*player),
    {
        *player == self.player1 || *player == self.player2
    }

    /// The opponent of the given player.
    pub fn get_opponent(&self, player: &PublicKey) -> (r: PublicKey)
        ensures
            r == self.spec_opponent(*player),
    {
        if *player == self.player1 {
            self.player2
        } else {
            self.player1
        }
    }

    /// Whether it is the given player's turn.
    pub fn is_turn(&self, player: &PublicKey) -> (r: bool)
        ensures
            r == (self.turn == *player),
    {
        self.turn == *player
    }

    /// Hands the turn to the opponent of the current turn-holder.
    pub fn switch_turn(&mut self)
        requires
            old(self).wf(),
        ensures
            final(self).turn == old(self).spec_opponent(old(self).turn),
            !old(self).spec_has_pending() ==> final(self).wf(),
            Match::same_static(*final(self), *old(self)),
            final(self).winner == old(self).winner,
            final(self).pending_x == old(self).pending_x && final(self).pending_y == old(self).pending_y,
            final(self).pending_shooter == old(self).pending_shooter && final(self).pending_target
                == old(self).pending_target,
            final(self).shots_p1 == old(self).shots_p1 && final(self).shots_p2 == old(self).shots_p2,
    {
        self.turn = self.get_opponent(&self.turn.clone());
    }

    /// Whether the match has concluded.
    pub fn is_finished(&self) -> (r: bool)
        ensures
            r == self.spec_finished(),
    {
        match self.winner {
            Some(_) => true,
            None => false,
        }
    }

    /// Whether both players have completed placement.
    pub fn both_players_placed(&self) -> (r: bool)
        ensures
            r == self.spec_both_placed(),
    {
        self.placed_p1 && self.placed_p2
    }

    /// Whether a shot is pending.
    pub fn has_pending_shot(&self) -> (r: bool)
        ensures
            r == self.spec_has_pending(),
    {
        match self.pending_x {
            Some(_) => true,
            None => false,
        }
    }

    /// Proposes a shot. Succeeds exactly when the match is not finished,
    /// both players have placed, the coordinates are on the board, no shot
    /// is already pending, and the shooter is the player whose turn it is.
    /// On success the shooter's history cell becomes `Pending` and the four
    /// pending fields are recorded; the turn is not switched yet.
    pub fn propose_shot(&mut self, shooter: PublicKey, x: u8, y: u8) -> (r: Result<
        (),
        GameError,
    >)
        requires
            old(self).wf(),
        ensures
            final(self).wf(),
            r is Ok <==> (!old(self).spec_finished() && old(self).spec_both_placed() && x
                < BOARD_SIZE && y < BOARD_SIZE && !old(self).spec_has_pending() && old(self).spec_is_player(shooter) && old(self).turn == shooter),
            r is Err ==> *final(self) == *old(self),
            old(self).spec_finished() ==> (r matches Err(e) && e is Finished),
            (!old(self).spec_finished() && !old(self).spec_both_placed()) ==> (r matches Err(e)
                && e is Invalid),
            (!old(self).spec_finished() && old(self).spec_both_placed() && (x >= BOARD_SIZE || y
                >= BOARD_SIZE)) ==> (r matches Err(e) && e is Invalid),
            (!old(self).spec_finished() && old(self).spec_both_placed() && x < BOARD_SIZE && y
                < BOARD_SIZE && old(self).spec_has_pending()) ==> (r matches Err(e)
                && e is Invalid),
            (!old(self).spec_finished() && old(self).spec_both_placed() && x < BOARD_SIZE && y
                < BOARD_SIZE && !old(self).spec_has_pending() && !old(self).spec_is_player(
                shooter,
            )) ==> (r matches Err(e) && e is Forbidden),
            (!old(self).spec_finished() && old(self).spec_both_placed() && x < BOARD_SIZE && y
                < BOARD_SIZE && !old(self).spec_has_pending() && old(self).spec_is_player(shooter)
                && old(self).turn != shooter) ==> (r matches Err(e) && e is Forbidden),
            r is Ok ==> ({
                &&& final(self).pending_x == Some(x)
                &&& final(self).pending_y == Some(y)
                &&& final(self).pending_shooter == Some(shooter)
                &&& final(self).pending_target == Some(old(self).spec_opponent(shooter))
                &&& final(self).turn == old(self).turn
                &&& final(self).winner == old(self).winner
                &&& Match::same_static(*final(self), *old(self))
                &&& (shooter == old(self).player1 ==> final(self).shots_p1@ == old(self).shots_p1@.update(
                    board_index(BOARD_SIZE, x as int, y as int),
                    Cell::Pending.as_u8(),
                ) && final(self).shots_p2 == old(self).shots_p2)
                &&& (shooter != old(self).player1 ==> final(self).shots_p2@ == old(self).shots_p2@.update(
                    board_index(BOARD_SIZE, x as int, y as int),
                    Cell::Pending.as_u8(),
                ) && final(self).shots_p1 == old(self).shots_p1)
            }),
    {
        if self.is_finished() {
            return Err(GameError::Finished);
        }
        if !self.both_players_placed() {
            return Err(GameError::Invalid("both players must place ships first"));
        }
        if x >= BOARD_SIZE || y >= BOARD_SIZE {
            return Err(GameError::Invalid("out of bounds"));
        }
        if self.has_pending_shot() {
            return Err(GameError::Invalid("shot already pending"));
        }
        if !self.is_player(&shooter) {
            return Err(GameError::Forbidden("not a player"));
        }
        if !self.is_turn(&shooter) {
            return Err(GameError::Forbidden("not your turn"));
        }

        if shooter == self.player1 {
            self.shots_p1.set(BOARD_SIZE, x, y, Cell::Pending);
        } else {
            self.shots_p2.set(BOARD_SIZE, x, y, Cell::Pending);
        }

        let opponent = self.get_opponent(&shooter);
        self.pending_x = Some(x);
        self.pending_y = Some(y);
        self.pending_shooter = Some(shooter);
        self.pending_target = Some(opponent);

        Ok(())
    }

    /// Acknowledges the pending shot. Succeeds exactly when a shot is
    /// pending and the caller is its recorded target; mutates nothing.
    pub fn acknowledge_shot(&mut self, target: PublicKey) -> (r: Result<String, GameError>)
        requires
            old(self).wf(),
        ensures
            *final(self) == *old(self),
            r is Ok <==> (old(self).spec_has_pending() && old(self).pending_target == Some(
                target,
            )),
            !old(self).spec_has_pending() ==> (r matches Err(e) && e is Invalid),
            (old(self).spec_has_pending() && old(self).pending_target != Some(target)) ==> (r
                matches Err(e) && e is Forbidden),
            r matches Ok(s) ==> s@ == "acknowledged"@,
    {
        let pending_target = match &self.pending_target {
            Some(t) => t,
            None => {
                return Err(GameError::Invalid("no pending shot"));
            },
        };
        if !(*pending_target == target) {
            return Err(GameError::Forbidden("not the target"));
        }
        Ok(String::from_str("acknowledged"))
    }

    /// Consumes the pending shot: clears the pending fields, writes `Hit`
    /// or `Miss` to the shooter's history cell, switches the turn to the
    /// shooter's opponent unless a winner is already set, and reports the
    /// outcome label.
    pub fn resolve_shot(&mut self, is_hit: bool) -> (r: String)
        requires
            old(self).wf(),
            old(self).spec_has_pending(),
        ensures
            final(self).wf(),
            !final(self).spec_has_pending(),
            final(self).pending_y is None,
            final(self).pending_shooter is None,
            final(self).pending_target is None,
            final(self).winner == old(self).winner,
            Match::same_static(*final(self), *old(self)),
            ({
                let x = old(self).pending_x->0;
                let y = old(self).pending_y->0;
                let sh = old(self).pending_shooter->0;
                let code = if is_hit {
                    Cell::Hit.as_u8()
                } else {
                    Cell::Miss.as_u8()
                };
                &&& (sh == old(self).player1 ==> final(self).shots_p1@ == old(self).shots_p1@.update(board_index(BOARD_SIZE, x as int, y as int), code) && final(self).shots_p2 == old(self).shots_p2)
                &&& (sh != old(self).player1 ==> final(self).shots_p2@ == old(self).shots_p2@.update(board_index(BOARD_SIZE, x as int, y as int), code) && final(self).shots_p1 == old(self).shots_p1)
                &&& (old(self).winner is None ==> final(self).turn == old(self).spec_opponent(sh))
                &&& (old(self).winner is Some ==> final(self).turn == old(self).turn)
            }),
            r@ == if is_hit {
                "hit"@
            } else {
                "miss"@
            },
    {
        let x = match self.pending_x {
            Some(x) => x,
            None => {
                proof {
                    assert(false);
                }
                0
            },
        };
        let y = match self.pending_y {
            Some(y) => y,
            None => {
                proof {
                    assert(false);
                }
                0
            },
        };
        let shooter = match self.pending_shooter {
            Some(s) => s,
            None => {
                proof {
                    assert(false);
                }
                self.player1
            },
        };
        self.pending_x = None;
        self.pending_y = None;
        self.pending_shooter = None;
        self.pending_target = None;

        let shot_result = if is_hit {
            Cell::Hit
        } else {
            Cell::Miss
        };
        if shooter == self.player1 {
            self.shots_p1.set(BOARD_SIZE, x, y, shot_result);
        } else {
            self.shots_p2.set(BOARD_SIZE, x, y, shot_result);
        }

        let finished = self.is_finished();
        if !finished {
            self.switch_turn();
        }

        if is_hit {
            String::from_str("hit")
        } else {
            String::from_str("miss")
        }
    }

    /// Records the winner. One-way: after this the match is finished.
    pub fn set_winner(&mut self, winner: PublicKey)
        ensures
            final(self).winner == Some(winner),
            Match::same_static(*final(self), *old(self)),
            final(self).turn == old(self).turn,
            final(self).pending_x == old(self).pending_x && final(self).pending_y == old(self).pending_y,
            final(self).pending_shooter == old(self).pending_shooter && final(self).pending_target
                == old(self).pending_target,
            final(self).shots_p1 == old(self).shots_p1 && final(self).shots_p2 == old(self).shots_p2,
            old(self).wf() ==> final(self).wf(),
    {
        self.winner = Some(winner);
    }

    /// Checks well-formedness at run time, for match values handed back in
    /// by the hosting layer's storage.
    pub fn is_well_formed(&self) -> (r: bool)
        ensures
            r == self.wf(),
    {
        proof {
            assert((BOARD_SIZE as int) * (BOARD_SIZE as int) == 100) by (nonlinear_arith);
        }
        if self.shots_p1.0.len() != 100 || self.shots_p2.0.len() != 100 {
            return false;
        }
        if self.player1 == self.player2 {
            return false;
        }
        if !self.is_player(&self.turn) {
            return false;
        }
        match self.pending_x {
            None => {
                self.pending_y.is_none() && self.pending_shooter.is_none()
                    && self.pending_target.is_none()
            },
            Some(x) => {
                if x >= BOARD_SIZE {
                    return false;
                }
                let y_ok = match self.pending_y {
                    Some(y) => y < BOARD_SIZE,
                    None => false,
                };
                if !y_ok {
                    return false;
                }
                let shooter = match &self.pending_shooter {
                    Some(s) => *s,
                    None => {
                        return false;
                    },
                };
                if !(shooter == self.turn) || !self.is_player(&shooter) {
                    return false;
                }
                match &self.pending_target {
                    Some(t) => *t == self.get_opponent(&shooter),
                    None => false,
                }
            },
        }
    }

    /// The given player's own shot-history board.
    pub fn get_shots_for_player(&self, player: &PublicKey) -> (r: &Board)
        ensures
            r@ == if *player == self.player1 {
                self.shots_p1@
            } else {
                self.shots_p2@
            },
    {
        if *player == self.player1 {
            &self.shots_p1
        } else {
            &self.shots_p2
        }
    }
}

/// The only component allowed to read a match and a private board together:
/// it consults the target's own board to resolve the pending shot.
pub struct ShotResolver;

impl ShotResolver {
    /// Resolves the pending shot against the target's private board.
    ///
    /// On a hit the target's cell becomes `Hit` and their remaining-ship
    /// counter is decremented; if it reaches zero the shooter is recorded
    /// as winner, and the turn does not switch. On a miss the target's own
    /// board is left untouched. Either way the match consumes the pending
    /// shot, records the outcome in the shooter's history, and the turn
    /// passes to the opponent unless a winner is set.
    pub fn resolve_shot(match_state: &mut Match, target_board: &mut PlayerBoard) -> (r: Result<
        String,
        GameError,
    >)
        requires
            old(match_state).wf(),
            old(target_board).wf(),
        ensures
            final(match_state).wf(),
            final(target_board).wf(),
            r is Ok <==> old(match_state).spec_has_pending(),
            !old(match_state).spec_has_pending() ==> (r matches Err(e) && e is Invalid && *final(match_state) == *old(match_state) && *final(target_board) == *old(target_board)),
            r is Ok ==> ({
                let x = old(match_state).pending_x->0;
                let y = old(match_state).pending_y->0;
                let sh = old(match_state).pending_shooter->0;
                let was_hit = cell_value(
                    old(target_board).spec_board(),
                    BOARD_SIZE,
                    x as int,
                    y as int,
                ) == Cell::Ship.as_u8();
                &&& (r matches Ok(s) && s@ == if was_hit {
                    "hit"@
                } else {
                    "miss"@
                })
                &&& (was_hit ==> final(target_board).spec_board() == old(target_board).spec_board().update(board_index(BOARD_SIZE, x as int, y as int), Cell::Hit.as_u8())
                    && final(target_board).spec_ships() == (if old(target_board).spec_ships() > 0 {
                    (old(target_board).spec_ships() - 1) as u64
                } else {
                    0u64
                }))
                &&& (!was_hit ==> *final(target_board) == *old(target_board))
                &&& ((was_hit && old(target_board).spec_ships() <= 1) ==> final(match_state).winner == Some(sh) && final(match_state).turn == old(match_state).turn)
                &&& (!(was_hit && old(target_board).spec_ships() <= 1) ==> final(match_state).winner == old(match_state).winner)
                &&& ((old(match_state).winner is None && !(was_hit && old(target_board).spec_ships() <= 1)) ==> final(match_state).turn == old(match_state).spec_opponent(
                    sh,
                ))
                &&& !final(match_state).spec_has_pending()
                &&& Match::same_static(*final(match_state), *old(match_state))
                &&& (sh == old(match_state).player1 ==> final(match_state).shots_p1@ == old(match_state).shots_p1@.update(
                    board_index(BOARD_SIZE, x as int, y as int),
                    if was_hit {
                        Cell::Hit.as_u8()
                    } else {
                        Cell::Miss.as_u8()
                    },
                ))
                &&& (sh != old(match_state).player1 ==> final(match_state).shots_p2@ == old(match_state).shots_p2@.update(
                    board_index(BOARD_SIZE, x as int, y as int),
                    if was_hit {
                        Cell::Hit.as_u8()
                    } else {
                        Cell::Miss.as_u8()
                    },
                ))
            }),
    {
        let x = match match_state.pending_x {
            Some(x) => x,
            None => {
                return Err(GameError::Invalid("no pending shot"));
            },
        };
        let y = match match_state.pending_y {
            Some(y) => y,
            None => {
                return Err(GameError::Invalid("no pending shot"));
            },
        };
        let shooter = match match_state.pending_shooter {
            Some(s) => s,
            None => {
                return Err(GameError::Invalid("no pending shot"));
            },
        };

        let cur = target_board.get_board().get(BOARD_SIZE, x, y);
        let is_hit = matches!(cur, Cell::Ship);

        if is_hit {
            let b = target_board.get_board_mut();
            b.set(BOARD_SIZE, x, y, Cell::Hit);
            target_board.decrement_ships();

            if target_board.get_ship_count() == 0 {
                match_state.set_winner(shooter);
            }
        }

        Ok(match_state.resolve_shot(is_hit))
    }
}

} // verus!
