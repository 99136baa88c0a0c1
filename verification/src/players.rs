//! Players: opaque 32-byte player identities and the private per-player
//! board holding ship placements and the remaining-ship counter.

use crate::board::{board_wf, cell_value, Board, Cell, Coordinate, BOARD_SIZE};
use crate::codec::{parse_groups, strings_views};
use crate::ships::ShipValidator;
use crate::validation::{
    all_coords_in, coords_distinct, coords_views, count_ships_of_len, fleet_distinct,
    fleet_separated, no_adjacent_on_board, no_overlap_on_board, ship_shape_ok, ships_adjacent,
    ships_overlap, validate_fleet_composition,
};
use crate::GameError;
use vstd::prelude::*;

verus! {

/// What base58 decoding returns for a given text, if it decodes at all.
/// The result is a function of the input characters alone.
pub uninterp spec fn base58_decoding(s: Seq<char>) -> Option<Seq<u8>>;

/// What base58 encoding returns for given bytes. The result is a function
/// of the input bytes alone.
pub uninterp spec fn base58_encoding(b: Seq<u8>) -> Seq<char>;

#[verifier::external_type_specification]
#[verifier::external_body]
pub struct ExBs58DecodeError(bs58::decode::Error);

/// Relies on `bs58::decode(..).into_vec()`: decodes base58 text with the
/// Bitcoin alphabet; the outcome depends only on the input string.
#[verifier::external_body]
fn bs58_decode(s: &str) -> (r: Result<Vec<u8>, bs58::decode::Error>)
    ensures
        match r {
            Ok(v) => base58_decoding(s@) == Some(v@),
            Err(_) => base58_decoding(s@) is None,
        },
{
    bs58::decode(s).into_vec()
}

/// Relies on `bs58::encode(..).into_string()`: encodes bytes as base58 text
/// with the Bitcoin alphabet; the outcome depends only on the input bytes.
#[verifier::external_body]
fn bs58_encode(b: &[u8; 32]) -> (r: String)
    ensures
        r@ == base58_encoding(b@),
{
    bs58::encode(b).into_string()
}

/// A player identity: an opaque, fixed-length 32-byte public key. Equality
/// is the only operation the rules engine needs.
#[derive(Debug, Clone, Copy, Eq)]
pub struct PublicKey(pub [u8; 32]);

impl PartialEq for PublicKey {
    fn eq(&self, other: &PublicKey) -> (r: bool) {
        let mut i: usize = 0;
        while i < 32
            invariant
                0 <= i <= 32,
                forall|k: int| 0 <= k < i ==> self.0@[k] == other.0@[k],
            decreases 32 - i,
        {
            if self.0[i] != other.0[i] {
                proof {
                    assert(self.0@[i as int] != other.0@[i as int]);
                }
                return false;
            }
            i = i + 1;
        }
        proof {
            assert(self.0 =~= other.0);
            assert(self.0 == other.0);
        }
        true
    }
}

impl vstd::std_specs::cmp::PartialEqSpecImpl for PublicKey {
    open spec fn obeys_eq_spec() -> bool {
        true
    }

    open spec fn eq_spec(&self, other: &PublicKey) -> bool {
        self.0 == other.0
    }
}

impl PublicKey {
    /// Parses a base58-encoded key, rejecting text that does not decode to
    /// exactly 32 bytes.
    pub fn from_base58(encoded: &str) -> (r: Result<PublicKey, GameError>)
        ensures
            r is Ok <==> (base58_decoding(encoded@) matches Some(b) && b.len() == 32),
            r matches Ok(k) ==> (base58_decoding(encoded@) matches Some(b) && k.0@ == b),
            r matches Err(e) ==> e is Invalid,
    {
        let decoded = match bs58_decode(encoded) {
            Ok(v) => v,
            Err(_) => {
                return Err(GameError::Invalid("bad base58 key"));
            },
        };
        if decoded.len() != 32 {
            return Err(GameError::Invalid("key length"));
        }
        let mut arr = [0u8; 32];
        let mut i: usize = 0;
        while i < 32
            invariant
                0 <= i <= 32,
                decoded@.len() == 32,
                forall|k: int| 0 <= k < i ==> arr@[k] == decoded@[k],
            decreases 32 - i,
        {
            arr[i] = decoded[i];
            i = i + 1;
        }
        proof {
            assert(arr@ =~= decoded@);
        }
        Ok(PublicKey(arr))
    }

    /// Encodes this key as base58 text.
    pub fn to_base58(&self) -> (r: String)
        ensures
            r@ == base58_encoding(self.0@),
    {
        bs58_encode(&self.0)
    }
}

/// Whether some ship of the fleet covers `(x, y)`.
pub open spec fn covered(css: Seq<Seq<Coordinate>>, x: int, y: int) -> bool {
    exists|i: int, j: int| #![trigger css[i][j]]
        0 <= i < css.len() && 0 <= j < css[i].len() && css[i][j].x == x && css[i][j].y == y
}

/// The board holds a `Ship` byte exactly on the fleet's cells and an
/// `Empty` byte everywhere else.
pub open spec fn board_matches_fleet(cells: Seq<u8>, css: Seq<Seq<Coordinate>>) -> bool {
    forall|x: int, y: int|
        0 <= x < BOARD_SIZE && 0 <= y < BOARD_SIZE ==> #[trigger] cell_value(
            cells,
            BOARD_SIZE,
            x,
            y,
        ) == if covered(css, x, y) {
            Cell::Ship.as_u8()
        } else {
            Cell::Empty.as_u8()
        }
}

/// How many cells of the board hold a `Ship` byte.
pub open spec fn count_ship_cells(cells: Seq<u8>) -> nat
    decreases cells.len(),
{
    if cells.len() == 0 {
        0
    } else {
        count_ship_cells(cells.drop_last()) + if cells.last() == Cell::Ship.as_u8() {
            1nat
        } else {
            0nat
        }
    }
}

/// A whole fleet submission is acceptable: at least one ship, every ship
/// well shaped, no duplicate coordinate anywhere, no two ships touching,
/// and the exact mandated composition.
pub open spec fn fleet_submission_ok(css: Seq<Seq<Coordinate>>) -> bool {
    &&& css.len() > 0
    &&& forall|i: int| 0 <= i < css.len() ==> ship_shape_ok(#[trigger] css[i], BOARD_SIZE)
    &&& fleet_distinct(css)
    &&& fleet_separated(css)
    &&& crate::validation::fleet_composition_ok(css)
}

/// There are never more `Ship` cells than cells.
proof fn lemma_count_le(cells: Seq<u8>)
    ensures
        count_ship_cells(cells) <= cells.len(),
    decreases cells.len(),
{
    if cells.len() > 0 {
        lemma_count_le(cells.drop_last());
    }
}

/// An all-`Empty` board has no `Ship` cells.
proof fn lemma_count_zero(cells: Seq<u8>)
    requires
        forall|i: int| 0 <= i < cells.len() ==> cells[i] == 0,
    ensures
        count_ship_cells(cells) == 0,
    decreases cells.len(),
{
    if cells.len() > 0 {
        lemma_count_zero(cells.drop_last());
    }
}

/// Writing a `Ship` byte over a non-`Ship` byte raises the count by one.
proof fn lemma_count_update(cells: Seq<u8>, i: int)
    requires
        0 <= i < cells.len(),
        cells[i] != Cell::Ship.as_u8(),
    ensures
        count_ship_cells(cells.update(i, Cell::Ship.as_u8())) == count_ship_cells(cells) + 1,
    decreases cells.len(),
{
    let t = cells.update(i, Cell::Ship.as_u8());
    if i == cells.len() - 1 {
        assert(t.drop_last() =~= cells.drop_last());
    } else {
        assert(t.drop_last() =~= cells.drop_last().update(i, Cell::Ship.as_u8()));
        assert(t.last() == cells.last());
        lemma_count_update(cells.drop_last(), i);
    }
}

/// A straight, contiguous ship has pairwise distinct coordinates.
proof fn lemma_shape_distinct(cs: Seq<Coordinate>)
    requires
        crate::validation::straight(cs),
        crate::validation::contiguous(cs),
    ensures
        coords_distinct(cs),
{
    assert forall|i: int, j: int| #![trigger cs[i], cs[j]]
        0 <= i < cs.len() && 0 <= j < cs.len() && i != j implies cs[i] != cs[j] by {
        if cs[i] == cs[j] {
            if crate::validation::all_same_x(cs) {
                assert(crate::validation::ys_of(cs)[i] == cs[i].y);
                assert(crate::validation::ys_of(cs)[j] == cs[j].y);
            } else {
                assert(crate::validation::xs_of(cs)[i] == cs[i].x);
                assert(crate::validation::xs_of(cs)[j] == cs[j].x);
            }
        }
    }
}

/// Extending a fleet by one ship extends its coverage by that ship's cells.
proof fn lemma_covered_push(css: Seq<Seq<Coordinate>>, cs: Seq<Coordinate>, x: int, y: int)
    ensures
        covered(css.push(cs), x, y) <==> (covered(css, x, y) || exists|j: int|
            0 <= j < cs.len() && (#[trigger] cs[j]).x == x && cs[j].y == y),
{
    let p = css.push(cs);
    if covered(p, x, y) {
        let (i, j) = choose|i: int, j: int| #![trigger p[i][j]]
            0 <= i < p.len() && 0 <= j < p[i].len() && p[i][j].x == x && p[i][j].y == y;
        if i < css.len() {
            assert(css[i][j].x == x && css[i][j].y == y);
            assert(covered(css, x, y));
        } else {
            assert(p[i] == cs);
            assert(cs[j].x == x && cs[j].y == y);
        }
    }
    if covered(css, x, y) {
        let (i, j) = choose|i: int, j: int| #![trigger css[i][j]]
            0 <= i < css.len() && 0 <= j < css[i].len() && css[i][j].x == x && css[i][j].y == y;
        assert(p[i][j].x == x && p[i][j].y == y);
        assert(covered(p, x, y));
    }
    if exists|j: int| 0 <= j < cs.len() && (#[trigger] cs[j]).x == x && cs[j].y == y {
        let j = choose|j: int| 0 <= j < cs.len() && (#[trigger] cs[j]).x == x && cs[j].y == y;
        assert(p[css.len() as int][j].x == x && p[css.len() as int][j].y == y);
        assert(covered(p, x, y));
    }
}

/// A candidate that passes the board-relative overlap and adjacency checks
/// neither overlaps nor touches any ship already on the board.
proof fn lemma_board_to_pairwise(cells: Seq<u8>, css: Seq<Seq<Coordinate>>, cs: Seq<Coordinate>)
    requires
        board_matches_fleet(cells, css),
        no_overlap_on_board(cells, BOARD_SIZE, cs),
        no_adjacent_on_board(cells, BOARD_SIZE, cs),
        forall|i: int| 0 <= i < css.len() ==> all_coords_in(#[trigger] css[i], BOARD_SIZE),
        all_coords_in(cs, BOARD_SIZE),
    ensures
        forall|i: int|
            0 <= i < css.len() ==> !ships_overlap(#[trigger] css[i], cs) && !ships_overlap(
                cs,
                css[i],
            ),
        forall|i: int|
            0 <= i < css.len() ==> !ships_adjacent(#[trigger] css[i], cs) && !ships_adjacent(
                cs,
                css[i],
            ),
{
    assert forall|i: int| 0 <= i < css.len() implies !ships_overlap(#[trigger] css[i], cs)
        && !ships_overlap(cs, css[i]) by {
        crate::validation::lemma_overlap_symmetric(css[i], cs);
        if ships_overlap(css[i], cs) {
            let (p, q) = choose|p: int, q: int| #![trigger css[i][p], cs[q]]
                0 <= p < css[i].len() && 0 <= q < cs.len() && css[i][p] == cs[q];
            let c = cs[q];
            assert(covered(css, c.x as int, c.y as int));
            assert(cell_value(cells, BOARD_SIZE, c.x as int, c.y as int) == Cell::Ship.as_u8());
            assert(false);
        }
    }
    assert forall|i: int| 0 <= i < css.len() implies !ships_adjacent(#[trigger] css[i], cs)
        && !ships_adjacent(cs, css[i]) by {
        crate::validation::lemma_adjacent_symmetric(css[i], cs);
        if ships_adjacent(css[i], cs) {
            let (p, q) = choose|p: int, q: int| #![trigger css[i][p], cs[q]]
                0 <= p < css[i].len() && 0 <= q < cs.len() && crate::validation::coords_adjacent(
                    css[i][p],
                    cs[q],
                );
            let a = css[i][p];
            let b = cs[q];
            assert(covered(css, a.x as int, a.y as int));
            assert(cell_value(cells, BOARD_SIZE, a.x as int, a.y as int) == Cell::Ship.as_u8());
            assert(crate::board::neighbor_is_ship(
                cells,
                BOARD_SIZE,
                b.x,
                b.y,
                a.x - b.x,
                a.y - b.y,
            ));
            assert(crate::board::has_adjacent_ship(cells, BOARD_SIZE, b.x, b.y));
            assert(false);
        }
    }
}

/// A candidate that neither overlaps nor touches any staged ship passes the
/// board-relative overlap and adjacency checks.
proof fn lemma_pairwise_to_board(cells: Seq<u8>, css: Seq<Seq<Coordinate>>, cs: Seq<Coordinate>)
    requires
        board_matches_fleet(cells, css),
        all_coords_in(cs, BOARD_SIZE),
        forall|p: int|
            0 <= p < css.len() ==> !ships_overlap(#[trigger] css[p], cs) && !ships_adjacent(
                css[p],
                cs,
            ),
    ensures
        no_overlap_on_board(cells, BOARD_SIZE, cs),
        no_adjacent_on_board(cells, BOARD_SIZE, cs),
{
    assert forall|q: int| 0 <= q < cs.len() implies cell_value(
        cells,
        BOARD_SIZE,
        #[trigger] cs[q].x as int,
        cs[q].y as int,
    ) != Cell::Ship.as_u8() by {
        let b = cs[q];
        if cell_value(cells, BOARD_SIZE, b.x as int, b.y as int) == Cell::Ship.as_u8() {
            assert(covered(css, b.x as int, b.y as int));
            let (p, j) = choose|p: int, j: int| #![trigger css[p][j]]
                0 <= p < css.len() && 0 <= j < css[p].len() && css[p][j].x == b.x as int
                    && css[p][j].y == b.y as int;
            assert(css[p][j] == b);
            assert(ships_overlap(css[p], cs));
        }
    }
    assert forall|q: int| 0 <= q < cs.len() implies !crate::board::has_adjacent_ship(
        cells,
        BOARD_SIZE,
        (#[trigger] cs[q]).x,
        cs[q].y,
    ) by {
        let b = cs[q];
        if crate::board::has_adjacent_ship(cells, BOARD_SIZE, b.x, b.y) {
            let (dx, dy) = choose|dx: int, dy: int|
                -1 <= dx <= 1 && -1 <= dy <= 1 && #[trigger] crate::board::neighbor_is_ship(
                    cells,
                    BOARD_SIZE,
                    b.x,
                    b.y,
                    dx,
                    dy,
                );
            assert(cell_value(cells, BOARD_SIZE, b.x + dx, b.y + dy) == Cell::Ship.as_u8());
            assert(covered(css, b.x + dx, b.y + dy));
            let (p, j) = choose|p: int, j: int| #![trigger css[p][j]]
                0 <= p < css.len() && 0 <= j < css[p].len() && css[p][j].x == b.x + dx
                    && css[p][j].y == b.y + dy;
            assert(crate::validation::coords_adjacent(css[p][j], b));
            assert(ships_adjacent(css[p], cs));
        }
    }
}

/// Marks every cell of one validated ship as `Ship` on the board.
fn mark_ship_cells(board: &mut Board, coords: &[Coordinate])
    requires
        board_wf(old(board)@, BOARD_SIZE),
        all_coords_in(coords@, BOARD_SIZE),
        coords_distinct(coords@),
        no_overlap_on_board(old(board)@, BOARD_SIZE, coords@),
    ensures
        board_wf(final(board)@, BOARD_SIZE),
        forall|x: int, y: int|
            0 <= x < BOARD_SIZE && 0 <= y < BOARD_SIZE ==> #[trigger] cell_value(
                final(board)@,
                BOARD_SIZE,
                x,
                y,
            ) == if exists|j: int|
                0 <= j < coords@.len() && (#[trigger] coords@[j]).x == x && coords@[j].y == y {
                Cell::Ship.as_u8()
            } else {
                cell_value(old(board)@, BOARD_SIZE, x, y)
            },
        count_ship_cells(final(board)@) == count_ship_cells(old(board)@) + coords@.len(),
{
    let n = coords.len();
    let mut j: usize = 0;
    while j < n
        invariant
            0 <= j <= n,
            n == coords@.len(),
            board_wf(board@, BOARD_SIZE),
            all_coords_in(coords@, BOARD_SIZE),
            coords_distinct(coords@),
            no_overlap_on_board(old(board)@, BOARD_SIZE, coords@),
            forall|x: int, y: int|
                0 <= x < BOARD_SIZE && 0 <= y < BOARD_SIZE ==> #[trigger] cell_value(
                    board@,
                    BOARD_SIZE,
                    x,
                    y,
                ) == if exists|m: int|
                    0 <= m < j && (#[trigger] coords@[m]).x == x && coords@[m].y == y {
                    Cell::Ship.as_u8()
                } else {
                    cell_value(old(board)@, BOARD_SIZE, x, y)
                },
            count_ship_cells(board@) == count_ship_cells(old(board)@) + j,
        decreases n - j,
    {
        let c = coords[j];
        let ghost pre = board@;
        proof {
            crate::board::lemma_board_index_bounds(BOARD_SIZE, c.x as int, c.y as int);
            assert(cell_value(pre, BOARD_SIZE, c.x as int, c.y as int) == cell_value(
                old(board)@,
                BOARD_SIZE,
                c.x as int,
                c.y as int,
            ));
            lemma_count_update(pre, crate::board::board_index(BOARD_SIZE, c.x as int, c.y as int));
        }
        board.set(BOARD_SIZE, c.x, c.y, Cell::Ship);
        proof {
            let ci = crate::board::board_index(BOARD_SIZE, c.x as int, c.y as int);
            assert(board@ == pre.update(ci, Cell::Ship.as_u8()));
            assert forall|x: int, y: int| 0 <= x < BOARD_SIZE && 0 <= y < BOARD_SIZE implies
                #[trigger] cell_value(board@, BOARD_SIZE, x, y) == if exists|m: int|
                    0 <= m < j + 1 && (#[trigger] coords@[m]).x == x && coords@[m].y == y {
                    Cell::Ship.as_u8()
                } else {
                    cell_value(old(board)@, BOARD_SIZE, x, y)
                } by {
                crate::board::lemma_board_index_bounds(BOARD_SIZE, x, y);
                let xi = crate::board::board_index(BOARD_SIZE, x, y);
                assert(cell_value(pre, BOARD_SIZE, x, y) == pre[xi]);
                if x == c.x as int && y == c.y as int {
                    assert(0 <= j < j + 1 && coords@[j as int].x == x && coords@[j as int].y == y);
                    assert(cell_value(board@, BOARD_SIZE, x, y) == Cell::Ship.as_u8());
                } else {
                    if xi == ci {
                        crate::board::lemma_board_index_injective(
                            BOARD_SIZE,
                            x,
                            y,
                            c.x as int,
                            c.y as int,
                        );
                    }
                    assert(cell_value(board@, BOARD_SIZE, x, y) == cell_value(
                        pre,
                        BOARD_SIZE,
                        x,
                        y,
                    ));
                    assert((exists|m: int|
                        0 <= m < j + 1 && (#[trigger] coords@[m]).x == x && coords@[m].y == y)
                        <==> (exists|m: int|
                        0 <= m < j && (#[trigger] coords@[m]).x == x && coords@[m].y == y));
                }
            }
        }
        j = j + 1;
    }
}

/// One player's private state: the own board with ship placements, the
/// remaining-ship counter, and the placement-completed flag.
#[derive(Debug, Clone)]
pub struct PlayerBoard {
    /// The player's private board with ship placements.
    own: Board,
    /// Ship cells remaining (decremented on each confirmed hit).
    ships: u64,
    /// Whether the player has completed placement.
    placed: bool,
}

impl PlayerBoard {
    /// The cells of the own board.
    pub closed spec fn spec_board(self) -> Seq<u8> {
        self.own@
    }

    /// The remaining-ship counter.
    pub closed spec fn spec_ships(self) -> u64 {
        self.ships
    }

    /// Whether placement is complete.
    pub closed spec fn spec_placed(self) -> bool {
        self.placed
    }

    /// Well-formedness: the board has one byte per grid position, and a
    /// board that has not completed placement is entirely empty with a zero
    /// counter.
    pub open spec fn wf(self) -> bool {
        &&& board_wf(self.spec_board(), BOARD_SIZE)
        &&& (!self.spec_placed() ==> self.spec_ships() == 0 && forall|i: int|
            0 <= i < self.spec_board().len() ==> self.spec_board()[i] == 0)
    }

    /// A fresh board: all cells empty, zero ships, placement not done.
    pub fn new() -> (r: PlayerBoard)
        ensures
            r.wf(),
            !r.spec_placed(),
            r.spec_ships() == 0,
    {
        PlayerBoard { own: Board::new_zeroed(BOARD_SIZE), ships: 0, placed: false }
    }

    /// Rebuilds a player board from stored parts, accepting only states
    /// this engine could itself have produced: a full grid, and an entirely
    /// empty board with a zero counter when placement is not complete.
    pub fn from_parts(cells: Vec<u8>, ships: u64, placed: bool) -> (r: Result<
        PlayerBoard,
        GameError,
    >)
        ensures
            r matches Ok(pb) ==> pb.wf() && pb.spec_board() == cells@ && pb.spec_ships() == ships
                && pb.spec_placed() == placed,
            r is Ok <==> (cells@.len() == BOARD_SIZE * BOARD_SIZE && (!placed ==> ships == 0
                && forall|i: int| 0 <= i < cells@.len() ==> cells@[i] == 0)),
            r matches Err(e) ==> e is Invalid,
    {
        proof {
            assert((BOARD_SIZE as int) * (BOARD_SIZE as int) == 100) by (nonlinear_arith);
        }
        if cells.len() != 100 {
            return Err(GameError::Invalid("board must have one cell per position"));
        }
        if !placed {
            if ships != 0 {
                return Err(GameError::Invalid("unplaced board must have no ships"));
            }
            let n = cells.len();
            let mut i: usize = 0;
            while i < n
                invariant
                    0 <= i <= n,
                    n == cells@.len(),
                    n == 100,
                    !placed,
                    ships == 0,
                    forall|k: int| 0 <= k < i ==> cells@[k] == 0,
                decreases n - i,
            {
                let c = cells[i];
                if c != 0 {
                    proof {
                        assert(cells@[i as int] != 0);
                    }
                    return Err(GameError::Invalid("unplaced board must be empty"));
                }
                i = i + 1;
            }
        }
        Ok(PlayerBoard { own: Board(cells), ships, placed })
    }

    /// Read access to the own board.
    pub fn get_board(&self) -> (r: &Board)
        ensures
            r@ == self.spec_board(),
    {
        &self.own
    }

    /// Mutable access to the own board, for shot resolution.
    pub fn get_board_mut(&mut self) -> (r: &mut Board)
        ensures
            (*r)@ == old(self).spec_board(),
            final(self).spec_board() == (*final(r))@,
            final(self).spec_ships() == old(self).spec_ships(),
            final(self).spec_placed() == old(self).spec_placed(),
    {
        &mut self.own
    }

    /// Whether this player has completed placement.
    pub fn is_placed(&self) -> (r: bool)
        ensures
            r == self.spec_placed(),
    {
        self.placed
    }

    /// The remaining-ship counter.
    pub fn get_ship_count(&self) -> (r: u64)
        ensures
            r == self.spec_ships(),
    {
        self.ships
    }

    /// Decrements the remaining-ship counter, never below zero.
    pub fn decrement_ships(&mut self)
        ensures
            final(self).spec_ships() == if old(self).spec_ships() > 0 {
                (old(self).spec_ships() - 1) as u64
            } else {
                0u64
            },
            final(self).spec_board() == old(self).spec_board(),
            final(self).spec_placed() == old(self).spec_placed(),
    {
        if self.ships > 0 {
            self.ships = self.ships - 1;
        }
    }

    /// Places a whole fleet submission, all-or-nothing.
    ///
    /// Every group is parsed, each ship is validated against the ships
    /// staged before it, and the fleet composition is checked, all against a
    /// scratch board; the player's board changes only if every check
    /// passes. A second call on an already-placed board always fails.
    pub fn place_ships(&mut self, ships: Vec<String>) -> (r: Result<(), GameError>)
        requires
            old(self).wf(),
        ensures
            final(self).wf(),
            old(self).spec_placed() ==> r is Err && *final(self) == *old(self),
            r is Ok <==> (!old(self).spec_placed() && (parse_groups(strings_views(ships@))
                matches Some(css) && fleet_submission_ok(css))),
            r matches Err(e) ==> e is Invalid && *final(self) == *old(self),
            r is Ok ==> ({
                &&& final(self).spec_placed()
                &&& final(self).spec_ships() == 17
                &&& count_ship_cells(final(self).spec_board()) == 17
                &&& (parse_groups(strings_views(ships@)) matches Some(css) && board_matches_fleet(
                    final(self).spec_board(),
                    css,
                ))
            }),
    {
        if self.placed {
            return Err(GameError::Invalid("already placed"));
        }

        // Parse every group before touching anything.
        let ghost sv = strings_views(ships@);
        let n = ships.len();
        let mut groups: Vec<Vec<Coordinate>> = Vec::new();
        let mut i: usize = 0;
        proof {
            assert(sv.take(0) =~= Seq::<Seq<char>>::empty());
        }
        while i < n
            invariant
                0 <= i <= n,
                n == ships@.len(),
                *self == *old(self),
                self.wf(),
                !self.spec_placed(),
                sv == strings_views(ships@),
                groups@.len() == i,
                parse_groups(sv.take(i as int)) == Some(coords_views(groups@)),
            decreases n - i,
        {
            let parsed = match ShipValidator::parse_ship_coords(ships[i].as_str()) {
                Ok(v) => v,
                Err(e) => {
                    proof {
                        assert(sv.take(i + 1).drop_last() =~= sv.take(i as int));
                        assert(sv.take(i + 1).last() == ships@[i as int]@);
                        assert(parse_groups(sv.take(i + 1)) is None);
                        crate::codec::lemma_parse_groups_extend_none(sv, i + 1);
                    }
                    return Err(e);
                },
            };
            groups.push(parsed);
            proof {
                assert(sv.take(i + 1).drop_last() =~= sv.take(i as int));
                assert(sv.take(i + 1).last() == ships@[i as int]@);
                assert(coords_views(groups@) =~= coords_views(groups@.drop_last()).push(
                    parsed@,
                ));
            }
            i = i + 1;
        }
        proof {
            assert(sv.take(n as int) =~= sv);
        }
        let ghost css = coords_views(groups@);

        if groups.is_empty() {
            return Err(GameError::Invalid("no ships"));
        }

        // Stage the fleet on a scratch board, each ship validated against
        // the ships staged before it.
        let mut scratch = Board::new_zeroed(BOARD_SIZE);
        let mut c2: usize = 0;
        let mut c3: usize = 0;
        let mut c4: usize = 0;
        let mut c5: usize = 0;
        let mut total: u64 = 0;
        let n2 = groups.len();
        let mut k: usize = 0;
        proof {
            lemma_count_zero(scratch@);
            assert(css.take(0) =~= Seq::<Seq<Coordinate>>::empty());
        }
        while k < n2
            invariant
                0 <= k <= n2,
                n2 == groups@.len(),
                n2 > 0,
                *self == *old(self),
                self.wf(),
                !self.spec_placed(),
                css == coords_views(groups@),
                parse_groups(strings_views(ships@)) == Some(css),
                board_wf(scratch@, BOARD_SIZE),
                board_matches_fleet(scratch@, css.take(k as int)),
                forall|p: int| 0 <= p < k ==> ship_shape_ok(#[trigger] css[p], BOARD_SIZE),
                forall|p: int| 0 <= p < k ==> coords_distinct(#[trigger] css[p]),
                forall|p: int, q: int| #![trigger css[p], css[q]]
                    0 <= p < k && 0 <= q < k && p != q ==> !ships_overlap(css[p], css[q]),
                forall|p: int, q: int| #![trigger css[p], css[q]]
                    0 <= p < k && 0 <= q < k && p != q ==> !ships_adjacent(css[p], css[q]),
                c2 == count_ships_of_len(css.take(k as int), 2),
                c3 == count_ships_of_len(css.take(k as int), 3),
                c4 == count_ships_of_len(css.take(k as int), 4),
                c5 == count_ships_of_len(css.take(k as int), 5),
                c2 <= k && c3 <= k && c4 <= k && c5 <= k,
                total == 2 * c2 + 3 * c3 + 4 * c4 + 5 * c5,
                total == count_ship_cells(scratch@),
                total <= 100,
            decreases n2 - k,
        {
            match ShipValidator::validate_ship_placement(&scratch, BOARD_SIZE, groups[k].as_slice())
            {
                Ok(_) => {},
                Err(e) => {
                    proof {
                        assert(css[k as int] == groups@[k as int]@);
                        if fleet_submission_ok(css) {
                            assert(ship_shape_ok(css[k as int], BOARD_SIZE));
                            assert(forall|p: int|
                                0 <= p < k ==> ship_shape_ok(#[trigger] css.take(k as int)[p],
                                    BOARD_SIZE));
                            assert(forall|p: int|
                                0 <= p < k ==> !ships_overlap(
                                    #[trigger] css.take(k as int)[p],
                                    css[k as int],
                                ) && !ships_adjacent(css.take(k as int)[p], css[k as int]));
                            lemma_pairwise_to_board(scratch@, css.take(k as int), css[k as int]);
                            assert(false);
                        }
                    }
                    return Err(e);
                },
            }
            proof {
                assert(css[k as int] == groups@[k as int]@);
                lemma_shape_distinct(css[k as int]);
                assert(forall|p: int|
                    0 <= p < k ==> all_coords_in(#[trigger] css.take(k as int)[p], BOARD_SIZE));
                lemma_board_to_pairwise(scratch@, css.take(k as int), css[k as int]);
                assert forall|p: int| 0 <= p < k implies !ships_overlap(#[trigger] css[p],
                    css[k as int]) && !ships_overlap(css[k as int], css[p]) && !ships_adjacent(
                    css[p],
                    css[k as int],
                ) && !ships_adjacent(css[k as int], css[p]) by {
                    assert(css.take(k as int)[p] == css[p]);
                }
            }
            let l = groups[k].len();
            mark_ship_cells(&mut scratch, groups[k].as_slice());
            proof {
                assert(css.take(k + 1) =~= css.take(k as int).push(css[k as int]));
                assert forall|x: int, y: int|
                    0 <= x < BOARD_SIZE && 0 <= y < BOARD_SIZE implies #[trigger] cell_value(
                    scratch@,
                    BOARD_SIZE,
                    x,
                    y,
                ) == if covered(css.take(k + 1), x, y) {
                    Cell::Ship.as_u8()
                } else {
                    Cell::Empty.as_u8()
                } by {
                    lemma_covered_push(css.take(k as int), css[k as int], x, y);
                }
                assert(css.take(k + 1).drop_last() =~= css.take(k as int));
                assert(css.take(k + 1).last() == css[k as int]);
                lemma_count_le(scratch@);
            }
            if l == 2 {
                c2 = c2 + 1;
            } else if l == 3 {
                c3 = c3 + 1;
            } else if l == 4 {
                c4 = c4 + 1;
            } else {
                c5 = c5 + 1;
            }
            total = total + (l as u64);
            k = k + 1;
        }
        proof {
            assert(css.take(n2 as int) =~= css);
        }

        // Whole-fleet composition check, still before any commit.
        let ghost cvs = coords_views(groups@);
        match validate_fleet_composition([c2, c3, c4, c5], groups) {
            Ok(_) => {},
            Err(e) => {
                proof {
                    assert(cvs == css);
                    assert(fleet_distinct(css));
                    assert(fleet_separated(css));
                    assert(!(c2 == 1 && c3 == 2 && c4 == 1 && c5 == 1));
                }
                return Err(e);
            },
        }
        proof {
            assert(cvs == css);
            assert(crate::validation::fleet_composition_ok(css));
            assert(total == 17);
        }

        // Commit: every check passed.
        self.own = scratch;
        self.ships = total;
        self.placed = true;
        Ok(())
    }
}

} // verus!
