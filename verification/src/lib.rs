//! Rules engine for a two-player Battleship match: board representation,
//! fleet placement validation, a turn-based two-phase shot protocol, and win
//! detection. The hosting layer supplies identities, storage, and event
//! delivery; everything here works on plain values.

use vstd::prelude::*;

pub mod board;
pub mod codec;
pub mod events;
pub mod game;
pub mod players;
pub mod ships;
pub mod validation;

use crate::board::{board_index, Board, Cell, BOARD_SIZE};
use crate::game::{Match, ShotResolver};
use crate::players::{base58_encoding, count_ship_cells, PlayerBoard, PublicKey};

verus! {

/// Error taxonomy for every game operation.
///
/// `NotFound`: a referenced match does not exist or does not match the
/// context. `Invalid`: malformed input, a rule violation, or the wrong game
/// phase. `Forbidden`: the caller lacks authorization for the action.
/// `Finished`: the match has already concluded.
#[derive(Debug, Clone, PartialEq, Eq)]
pub enum GameError {
    /// Resource not found (for example, an unknown match identifier).
    NotFound(String),
    /// Invalid input or state.
    Invalid(&'static str),
    /// Operation not allowed for this caller.
    Forbidden(&'static str),
    /// The match has already ended.
    Finished,
}

/// A player's own board as exported for display: the side length and one
/// cell code per position (0 empty, 1 ship, 2 hit, 3 miss, 4 pending).
#[derive(Debug, Clone)]
pub struct OwnBoardView {
    /// The board side length.
    pub size: u8,
    /// Flat row-major cell codes.
    pub board: Vec<u8>,
}

/// A player's shot history as exported for display, with the same cell
/// codes as `OwnBoardView`.
#[derive(Debug, Clone)]
pub struct ShotsView {
    /// The board side length.
    pub size: u8,
    /// Flat row-major cell codes.
    pub shots: Vec<u8>,
}

/// Copies a board's cells.
fn copy_cells(b: &Board) -> (r: Vec<u8>)
    ensures
        r@ == b@,
{
    let n = b.0.len();
    let mut out: Vec<u8> = Vec::new();
    let mut i: usize = 0;
    while i < n
        invariant
            0 <= i <= n,
            n == b@.len(),
            out@.len() == i,
            forall|k: int| 0 <= k < i ==> out@[k] == b@[k],
        decreases n - i,
    {
        out.push(b.0[i]);
        i = i + 1;
    }
    proof {
        assert(out@ =~= b@);
    }
    out
}

/// The match registry and identifier source: at most one active match at a
/// time, created against a caller identity and a clock value supplied by
/// the hosting layer.
#[derive(Debug)]
pub struct BattleshipState {
    /// Counter for generating unique match identifiers.
    id_nonce: u64,
    /// When this state was created, in milliseconds.
    created_ms: u64,
    /// The currently active match, if any.
    active_match: Option<Match>,
}

impl BattleshipState {
    /// The active match, if any.
    pub closed spec fn spec_active(self) -> Option<Match> {
        self.active_match
    }

    /// The identifier counter.
    pub closed spec fn spec_nonce(self) -> u64 {
        self.id_nonce
    }

    /// The creation timestamp.
    pub closed spec fn spec_created(self) -> u64 {
        self.created_ms
    }

    /// Well-formedness: the active match, if any, is well formed.
    pub open spec fn wf(self) -> bool {
        self.spec_active() matches Some(m) ==> m.wf()
    }

    /// A fresh state: no active match, zero counter, the given clock value.
    pub fn init(now_ms: u64) -> (r: BattleshipState)
        ensures
            r.wf(),
            r.spec_active() is None,
            r.spec_nonce() == 0,
            r.spec_created() == now_ms,
    {
        BattleshipState { id_nonce: 0, created_ms: now_ms, active_match: None }
    }

    /// Rebuilds the state from stored parts, accepting only a well-formed
    /// active match.
    pub fn from_parts(id_nonce: u64, created_ms: u64, active: Option<Match>) -> (r: Result<
        BattleshipState,
        GameError,
    >)
        ensures
            r is Ok <==> (active matches Some(m) ==> m.wf()),
            r matches Ok(s) ==> s.wf() && s.spec_nonce() == id_nonce && s.spec_created()
                == created_ms && s.spec_active() == active,
            r matches Err(e) ==> e is Invalid,
    {
        let ok = match &active {
            Some(m) => m.is_well_formed(),
            None => true,
        };
        if !ok {
            return Err(GameError::Invalid("malformed match state"));
        }
        Ok(BattleshipState { id_nonce, created_ms, active_match: active })
    }

    /// The identifier counter, for persistence by the hosting layer.
    pub fn nonce(&self) -> (r: u64)
        ensures
            r == self.spec_nonce(),
    {
        self.id_nonce
    }

    /// The creation timestamp, for persistence by the hosting layer.
    pub fn created(&self) -> (r: u64)
        ensures
            r == self.spec_created(),
    {
        self.created_ms
    }

    /// The active match, for persistence by the hosting layer.
    pub fn active(&self) -> (r: &Option<Match>)
        ensures
            *r == self.spec_active(),
    {
        &self.active_match
    }

    /// Advances the counter (wrapping) and builds a fresh match identifier
    /// from the given clock value and the new counter.
    fn next_id(&mut self, now_ms: u64) -> (r: String)
        ensures
            final(self).spec_nonce() == (if old(self).spec_nonce() == u64::MAX {
                0u64
            } else {
                (old(self).spec_nonce() + 1) as u64
            }),
            final(self).spec_created() == old(self).spec_created(),
            final(self).spec_active() == old(self).spec_active(),
            r@ == "match-"@ + crate::codec::dec_digits(now_ms as nat) + "-"@
                + crate::codec::dec_digits(final(self).spec_nonce() as nat),
    {
        self.id_nonce = if self.id_nonce == u64::MAX {
            0
        } else {
            self.id_nonce + 1
        };
        proof {
            reveal_strlit("match-");
            reveal_strlit("-");
        }
        let mut id = String::new();
        id.append("match-");
        let now_part = crate::codec::u64_to_dec(now_ms);
        id.append(now_part.as_str());
        id.append("-");
        let nonce_part = crate::codec::u64_to_dec(self.id_nonce);
        id.append(nonce_part.as_str());
        id
    }

    /// Creates a match between the caller and another player given by their
    /// base58 key. Fails while another match is still running, for a key
    /// that does not decode to 32 bytes, and when both players are the same.
    pub fn create_match(&mut self, caller: PublicKey, player2: String, now_ms: u64) -> (r: Result<
        String,
        GameError,
    >)
        requires
            old(self).wf(),
        ensures
            final(self).wf(),
            r is Err ==> *final(self) == *old(self),
            r matches Err(e) ==> e is Invalid,
            r is Ok <==> (!(old(self).spec_active() matches Some(m) && !m.spec_finished()) && (
            crate::players::base58_decoding(player2@) matches Some(b) && b.len() == 32
                && caller.0@ != b)),
            r is Ok ==> ({
                &&& final(self).spec_active() matches Some(m) && m.wf() && m.player1 == caller
                    && m.turn == caller && m.winner is None && !m.placed_p1 && !m.placed_p2
                    && !m.spec_has_pending() && (crate::players::base58_decoding(player2@)
                    matches Some(b) && m.player2.0@ == b) && (r matches Ok(s) && s@ == m.id@)
            }),
    {
        let running = match &self.active_match {
            Some(m) => !m.is_finished(),
            None => false,
        };
        if running {
            return Err(GameError::Invalid("another match is active"));
        }

        let player2_pk = match PublicKey::from_base58(player2.as_str()) {
            Ok(k) => k,
            Err(_) => {
                return Err(GameError::Invalid("bad player key"));
            },
        };

        if caller == player2_pk {
            proof {
                assert(caller.0 =~= player2_pk.0);
            }
            return Err(GameError::Invalid("players must differ"));
        }
        proof {
            if caller.0@ == player2_pk.0@ {
                assert(caller.0 =~= player2_pk.0);
                assert(caller == player2_pk);
            }
        }

        let id = self.next_id(now_ms);
        self.active_match = Some(Match::new(id.clone(), caller, player2_pk));
        Ok(id)
    }

    /// Places the caller's fleet in the named match: the match must exist,
    /// not be finished, and the caller must be one of its players; the
    /// fleet itself is validated and committed by the private board.
    /// On success the caller's placement flag on the match is set.
    pub fn place_ships(
        &mut self,
        match_id: &str,
        ships: Vec<String>,
        caller: PublicKey,
        pb: &mut PlayerBoard,
    ) -> (r: Result<(), GameError>)
        requires
            old(self).wf(),
            old(pb).wf(),
        ensures
            final(self).wf(),
            final(pb).wf(),
            r is Err ==> *final(self) == *old(self) && *final(pb) == *old(pb),
            r is Ok <==> (old(self).spec_active() matches Some(m) && m.id@ == match_id@
                && !m.spec_finished() && m.spec_is_player(caller) && !old(pb).spec_placed() && (
            crate::codec::parse_groups(crate::codec::strings_views(ships@)) matches Some(css)
                && crate::players::fleet_submission_ok(css))),
            old(self).spec_active() is None ==> (r matches Err(e) && e is Invalid),
            (old(self).spec_active() matches Some(m) && m.id@ != match_id@) ==> (r matches Err(e)
                && e is NotFound),
            (old(self).spec_active() matches Some(m) && m.id@ == match_id@ && m.spec_finished())
                ==> (r matches Err(e) && e is Finished),
            (old(self).spec_active() matches Some(m) && m.id@ == match_id@ && !m.spec_finished()
                && !m.spec_is_player(caller)) ==> (r matches Err(e) && e is Forbidden),
            r is Ok ==> ({
                &&& old(self).spec_active() matches Some(m) && final(self).spec_active()
                    matches Some(m2) && ({
                    &&& (caller == m.player1 ==> m2.placed_p1 && m2.placed_p2 == m.placed_p2)
                    &&& (caller != m.player1 ==> m2.placed_p2 && m2.placed_p1 == m.placed_p1)
                    &&& m2.id == m.id && m2.player1 == m.player1 && m2.player2 == m.player2
                    &&& m2.turn == m.turn && m2.winner == m.winner
                    &&& m2.pending_x == m.pending_x && m2.pending_y == m.pending_y
                    &&& m2.pending_shooter == m.pending_shooter && m2.pending_target
                        == m.pending_target
                    &&& m2.shots_p1 == m.shots_p1 && m2.shots_p2 == m.shots_p2
                })
                &&& final(pb).spec_placed()
                &&& final(pb).spec_ships() == 17
                &&& count_ship_cells(final(pb).spec_board()) == 17
            }),
    {
        let m = match &mut self.active_match {
            Some(m) => m,
            None => {
                return Err(GameError::Invalid("no active match"));
            },
        };
        if !crate::codec::str_eq(match_id, m.id.as_str()) {
            return Err(GameError::NotFound(String::from_str(match_id)));
        }
        if m.is_finished() {
            return Err(GameError::Finished);
        }
        if !m.is_player(&caller) {
            return Err(GameError::Forbidden("not a player"));
        }

        match pb.place_ships(ships) {
            Ok(_) => {},
            Err(e) => {
                return Err(e);
            },
        }

        if caller == m.player1 {
            m.placed_p1 = true;
        } else {
            m.placed_p2 = true;
        }

        Ok(())
    }

    /// Proposes a shot by the caller in the named match; all rule checks
    /// are made by the match itself.
    pub fn propose_shot(&mut self, match_id: &str, x: u8, y: u8, caller: PublicKey) -> (r: Result<
        (),
        GameError,
    >)
        requires
            old(self).wf(),
        ensures
            final(self).wf(),
            r is Err ==> *final(self) == *old(self),
            r is Ok <==> (old(self).spec_active() matches Some(m) && m.id@ == match_id@
                && !m.spec_finished() && m.spec_both_placed() && x < BOARD_SIZE && y < BOARD_SIZE
                && !m.spec_has_pending() && m.spec_is_player(caller) && m.turn == caller),
            old(self).spec_active() is None ==> (r matches Err(e) && e is Invalid),
            (old(self).spec_active() matches Some(m) && m.id@ != match_id@) ==> (r matches Err(e)
                && e is NotFound),
            (old(self).spec_active() matches Some(m) && m.id@ == match_id@ && m.spec_finished())
                ==> (r matches Err(e) && e is Finished),
            r is Ok ==> ({
                &&& old(self).spec_active() matches Some(m) && final(self).spec_active()
                    matches Some(m2) && ({
                    &&& m2.pending_x == Some(x) && m2.pending_y == Some(y)
                    &&& m2.pending_shooter == Some(caller)
                    &&& m2.pending_target == Some(m.spec_opponent(caller))
                    &&& m2.turn == m.turn && m2.winner == m.winner
                    &&& Match::same_static(m2, m)
                    &&& (caller == m.player1 ==> m2.shots_p1@ == m.shots_p1@.update(
                        board_index(BOARD_SIZE, x as int, y as int),
                        Cell::Pending.as_u8(),
                    ) && m2.shots_p2 == m.shots_p2)
                    &&& (caller != m.player1 ==> m2.shots_p2@ == m.shots_p2@.update(
                        board_index(BOARD_SIZE, x as int, y as int),
                        Cell::Pending.as_u8(),
                    ) && m2.shots_p1 == m.shots_p1)
                })
            }),
    {
        let m = match &mut self.active_match {
            Some(m) => m,
            None => {
                return Err(GameError::Invalid("no active match"));
            },
        };
        if !crate::codec::str_eq(match_id, m.id.as_str()) {
            return Err(GameError::NotFound(String::from_str(match_id)));
        }
        m.propose_shot(caller, x, y)
    }

    /// Acknowledges and resolves the pending shot: the caller must be its
    /// recorded target, and the target's private board decides hit or miss.
    pub fn acknowledge_shot(
        &mut self,
        match_id: &str,
        caller: PublicKey,
        target_pb: &mut PlayerBoard,
    ) -> (r: Result<String, GameError>)
        requires
            old(self).wf(),
            old(target_pb).wf(),
        ensures
            final(self).wf(),
            final(target_pb).wf(),
            r is Err ==> *final(self) == *old(self) && *final(target_pb) == *old(target_pb),
            r is Ok <==> (old(self).spec_active() matches Some(m) && m.id@ == match_id@
                && !m.spec_finished() && m.spec_has_pending() && m.pending_target == Some(caller)),
            r is Ok ==> ({
                let m = old(self).spec_active()->0;
                let x = m.pending_x->0;
                let y = m.pending_y->0;
                let sh = m.pending_shooter->0;
                let was_hit = crate::board::cell_value(
                    old(target_pb).spec_board(),
                    BOARD_SIZE,
                    x as int,
                    y as int,
                ) == Cell::Ship.as_u8();
                &&& (r matches Ok(s) && s@ == if was_hit {
                    "hit"@
                } else {
                    "miss"@
                })
                &&& (was_hit ==> final(target_pb).spec_board() == old(target_pb).spec_board().update(
                    board_index(BOARD_SIZE, x as int, y as int),
                    Cell::Hit.as_u8(),
                ) && final(target_pb).spec_ships() == (if old(target_pb).spec_ships() > 0 {
                    (old(target_pb).spec_ships() - 1) as u64
                } else {
                    0u64
                }))
                &&& (!was_hit ==> *final(target_pb) == *old(target_pb))
                &&& final(self).spec_active() matches Some(m2) && ({
                    &&& !m2.spec_has_pending()
                    &&& Match::same_static(m2, m)
                    &&& ((was_hit && old(target_pb).spec_ships() <= 1) ==> m2.winner == Some(sh)
                        && m2.turn == m.turn)
                    &&& (!(was_hit && old(target_pb).spec_ships() <= 1) ==> m2.winner == m.winner)
                    &&& ((m.winner is None && !(was_hit && old(target_pb).spec_ships() <= 1))
                        ==> m2.turn == m.spec_opponent(sh))
                })
            }),
    {
        let m = match &mut self.active_match {
            Some(m) => m,
            None => {
                return Err(GameError::Invalid("no active match"));
            },
        };
        if !crate::codec::str_eq(match_id, m.id.as_str()) {
            return Err(GameError::NotFound(String::from_str(match_id)));
        }
        if m.is_finished() {
            return Err(GameError::Finished);
        }
        match m.acknowledge_shot(caller) {
            Ok(_) => {},
            Err(e) => {
                return Err(e);
            },
        }
        ShotResolver::resolve_shot(m, target_pb)
    }

    /// The caller's own board for display, with the pending shot overlaid
    /// when the caller is the live shot target; nothing is mutated.
    pub fn get_own_board(&self, match_id: &str, caller: PublicKey, pb: &PlayerBoard) -> (r: Result<
        OwnBoardView,
        GameError,
    >)
        requires
            self.wf(),
            pb.wf(),
        ensures
            r is Ok <==> (self.spec_active() matches Some(m) && m.id@ == match_id@),
            self.spec_active() is None ==> (r matches Err(e) && e is Invalid),
            (self.spec_active() matches Some(m) && m.id@ != match_id@) ==> (r matches Err(e)
                && e is NotFound),
            r matches Ok(v) ==> ({
                let m = self.spec_active()->0;
                &&& v.size == BOARD_SIZE
                &&& (m.pending_target == Some(caller) ==> v.board@ == pb.spec_board().update(
                    board_index(BOARD_SIZE, m.pending_x->0 as int, m.pending_y->0 as int),
                    Cell::Pending.as_u8(),
                ))
                &&& (m.pending_target != Some(caller) ==> v.board@ == pb.spec_board())
            }),
    {
        let m = match &self.active_match {
            Some(m) => m,
            None => {
                return Err(GameError::Invalid("no active match"));
            },
        };
        if !crate::codec::str_eq(match_id, m.id.as_str()) {
            return Err(GameError::NotFound(String::from_str(match_id)));
        }

        let mut cells = copy_cells(pb.get_board());
        let overlay = match &m.pending_target {
            Some(t) => *t == caller,
            None => false,
        };
        if overlay {
            let x = match m.pending_x {
                Some(x) => x,
                None => 0,
            };
            let y = match m.pending_y {
                Some(y) => y,
                None => 0,
            };
            proof {
                crate::board::lemma_board_index_bounds(BOARD_SIZE, x as int, y as int);
            }
            let idx = Board::idx(BOARD_SIZE, x, y);
            cells[idx] = Cell::Pending.to_u8();
        }
        Ok(OwnBoardView { size: BOARD_SIZE, board: cells })
    }

    /// The caller's shot history for display; only players may read it.
    pub fn get_shots(&self, match_id: &str, caller: PublicKey) -> (r: Result<ShotsView, GameError>)
        requires
            self.wf(),
        ensures
            r is Ok <==> (self.spec_active() matches Some(m) && m.id@ == match_id@
                && m.spec_is_player(caller)),
            self.spec_active() is None ==> (r matches Err(e) && e is Invalid),
            (self.spec_active() matches Some(m) && m.id@ != match_id@) ==> (r matches Err(e)
                && e is NotFound),
            (self.spec_active() matches Some(m) && m.id@ == match_id@ && !m.spec_is_player(caller))
                ==> (r matches Err(e) && e is Forbidden),
            r matches Ok(v) ==> ({
                let m = self.spec_active()->0;
                &&& v.size == BOARD_SIZE
                &&& v.shots@ == if caller == m.player1 {
                    m.shots_p1@
                } else {
                    m.shots_p2@
                }
            }),
    {
        let m = match &self.active_match {
            Some(m) => m,
            None => {
                return Err(GameError::Invalid("no active match"));
            },
        };
        if !crate::codec::str_eq(match_id, m.id.as_str()) {
            return Err(GameError::NotFound(String::from_str(match_id)));
        }
        if !m.is_player(&caller) {
            return Err(GameError::Forbidden("not a player"));
        }
        let shots = m.get_shots_for_player(&caller);
        Ok(ShotsView { size: BOARD_SIZE, shots: copy_cells(shots) })
    }

    /// The identifier of the active match, if any.
    pub fn get_active_match_id(&self) -> (r: Option<String>)
        ensures
            r is Some <==> self.spec_active() is Some,
            r matches Some(s) ==> s@ == self.spec_active()->0.id@,
    {
        match &self.active_match {
            Some(m) => Some(m.id.clone()),
            None => None,
        }
    }

    /// The base58 key of the player whose turn it is, if a match is active.
    pub fn get_current_turn(&self) -> (r: Option<String>)
        ensures
            r is Some <==> self.spec_active() is Some,
            r matches Some(s) ==> s@ == base58_encoding(self.spec_active()->0.turn.0@),
    {
        match &self.active_match {
            Some(m) => Some(m.turn.to_base58()),
            None => None,
        }
    }
}

} // verus!
