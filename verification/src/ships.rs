//! Ships and fleets: single-ship geometry, fleet composition, and the
//! placement validation service.

use crate::board::{board_wf, Board, Coordinate, BOARD_SIZE};
use crate::validation::{
    all_coords_in, contiguous, contiguous_ok, coords_views, fleet_distinct, fleet_separated,
    no_adjacent_on_board, no_overlap_on_board, ship_shape_ok, ships_adjacent, ships_overlap,
    slices_adjacent, slices_overlap, straight, straight_ok, validate_coordinates,
    validate_fleet_composition,
};
use crate::GameError;
use vstd::prelude::*;

verus! {

/// A single ship: a non-empty list of coordinates forming a straight,
/// contiguous line of length 2 to 5.
#[derive(Debug, Clone, PartialEq, Eq)]
pub struct Ship {
    /// The coordinates that make up the ship.
    pub coordinates: Vec<Coordinate>,
    /// The length of the ship (its number of coordinates).
    pub length: u8,
}

impl Ship {
    /// Builds a ship, enforcing every intrinsic shape rule: length 2 to 5,
    /// coordinates on the board, straight, and contiguous.
    pub fn new(coordinates: Vec<Coordinate>) -> (r: Result<Ship, GameError>)
        ensures
            r is Ok <==> ship_shape_ok(coordinates@, BOARD_SIZE),
            r matches Ok(s) ==> s.coordinates@ == coordinates@ && s.length == coordinates@.len(),
            r matches Err(e) ==> e is Invalid,
    {
        if coordinates.is_empty() {
            return Err(GameError::Invalid("ship cannot be empty"));
        }
        let length = coordinates.len();
        if length < 2 || length > 5 {
            return Err(GameError::Invalid("ship length must be 2-5"));
        }
        if let Err(e) = validate_coordinates(coordinates.as_slice(), BOARD_SIZE) {
            return Err(GameError::Invalid("ship contains invalid coordinates"));
        }
        if !straight_ok(coordinates.as_slice()) {
            return Err(GameError::Invalid("ship must be straight"));
        }
        if !contiguous_ok(coordinates.as_slice()) {
            return Err(GameError::Invalid("ship must be contiguous"));
        }
        Ok(Ship { length: length as u8, coordinates })
    }

    /// Whether the ship's coordinates share exactly one axis.
    pub fn is_straight(&self) -> (r: bool)
        ensures
            r == straight(self.coordinates@),
    {
        straight_ok(self.coordinates.as_slice())
    }

    /// Whether the ship's coordinates form one unbroken run along the
    /// varying axis.
    pub fn is_contiguous(&self) -> (r: bool)
        ensures
            r == contiguous(self.coordinates@),
    {
        contiguous_ok(self.coordinates.as_slice())
    }

    /// Whether this ship shares a coordinate with the other.
    pub fn overlaps_with(&self, other: &Ship) -> (r: bool)
        ensures
            r == ships_overlap(self.coordinates@, other.coordinates@),
    {
        slices_overlap(self.coordinates.as_slice(), other.coordinates.as_slice())
    }

    /// Whether some coordinate of this ship touches one of the other,
    /// diagonals included.
    pub fn is_adjacent_to(&self, other: &Ship) -> (r: bool)
        ensures
            r == ships_adjacent(self.coordinates@, other.coordinates@),
    {
        slices_adjacent(self.coordinates.as_slice(), other.coordinates.as_slice())
    }
}

/// The coordinate lists of a fleet's ships, in order.
pub open spec fn fleet_views(ships: Seq<Ship>) -> Seq<Seq<Coordinate>> {
    Seq::new(ships.len(), |i: int| ships[i].coordinates@)
}

/// How many ships in the list carry the given length tag.
pub open spec fn count_ships_with_length(ships: Seq<Ship>, l: u8) -> nat
    decreases ships.len(),
{
    if ships.len() == 0 {
        0
    } else {
        count_ships_with_length(ships.drop_last(), l) + if ships.last().length == l {
            1nat
        } else {
            0nat
        }
    }
}

/// A player's fleet: the mandated set of five ships.
#[derive(Debug, Clone)]
pub struct Fleet {
    /// The ships of the fleet.
    pub ships: Vec<Ship>,
}

impl Fleet {
    /// Builds a fleet, enforcing the composition rule (one ship of length 5,
    /// one of 4, two of 3, one of 2), uniqueness of every coordinate across
    /// the fleet, and pairwise separation of the ships.
    pub fn new(ships: Vec<Ship>) -> (r: Result<Fleet, GameError>)
        ensures
            r is Ok <==> ({
                &&& forall|i: int|
                    0 <= i < ships@.len() ==> 2 <= (#[trigger] ships@[i]).length <= 5
                &&& count_ships_with_length(ships@, 2) == 1
                &&& count_ships_with_length(ships@, 3) == 2
                &&& count_ships_with_length(ships@, 4) == 1
                &&& count_ships_with_length(ships@, 5) == 1
                &&& fleet_distinct(fleet_views(ships@))
                &&& fleet_separated(fleet_views(ships@))
            }),
            r matches Ok(f) ==> f.ships@ == ships@,
            r matches Err(e) ==> e is Invalid,
    {
        let n = ships.len();
        let mut c2: usize = 0;
        let mut c3: usize = 0;
        let mut c4: usize = 0;
        let mut c5: usize = 0;
        let mut i: usize = 0;
        while i < n
            invariant
                0 <= i <= n,
                n == ships@.len(),
                forall|k: int| 0 <= k < i ==> 2 <= (#[trigger] ships@[k]).length <= 5,
                c2 == count_ships_with_length(ships@.take(i as int), 2),
                c3 == count_ships_with_length(ships@.take(i as int), 3),
                c4 == count_ships_with_length(ships@.take(i as int), 4),
                c5 == count_ships_with_length(ships@.take(i as int), 5),
                c2 <= i && c3 <= i && c4 <= i && c5 <= i,
            decreases n - i,
        {
            let l = ships[i].length;
            if l < 2 || l > 5 {
                return Err(GameError::Invalid("invalid ship length"));
            }
            if l == 2 {
                c2 = c2 + 1;
            } else if l == 3 {
                c3 = c3 + 1;
            } else if l == 4 {
                c4 = c4 + 1;
            } else {
                c5 = c5 + 1;
            }
            proof {
                let pre = ships@.take(i as int);
                let post = ships@.take(i as int + 1);
                assert(post.drop_last() =~= pre);
                assert(post.last() == ships@[i as int]);
            }
            i = i + 1;
        }
        proof {
            assert(ships@.take(n as int) =~= ships@);
        }

        let mut ship_coordinates: Vec<Vec<Coordinate>> = Vec::new();
        let mut j: usize = 0;
        while j < n
            invariant
                0 <= j <= n,
                n == ships@.len(),
                ship_coordinates@.len() == j,
                forall|k: int|
                    0 <= k < j ==> (#[trigger] ship_coordinates@[k])@ == ships@[k].coordinates@,
            decreases n - j,
        {
            let coords = copy_coords(&ships[j].coordinates);
            ship_coordinates.push(coords);
            j = j + 1;
        }
        proof {
            assert(coords_views(ship_coordinates@) =~= fleet_views(ships@));
        }

        match validate_fleet_composition([c2, c3, c4, c5], ship_coordinates) {
            Ok(_) => Ok(Fleet { ships }),
            Err(e) => Err(e),
        }
    }

    /// The number of ships in the fleet.
    pub fn total_ships(&self) -> (r: usize)
        ensures
            r == self.ships@.len(),
    {
        self.ships.len()
    }

    /// The number of ships in the fleet, as a wide counter.
    pub fn get_ship_count(&self) -> (r: u64)
        ensures
            r == self.ships@.len(),
    {
        self.ships.len() as u64
    }
}

/// Copies a coordinate list.
fn copy_coords(v: &Vec<Coordinate>) -> (r: Vec<Coordinate>)
    ensures
        r@ == v@,
{
    let n = v.len();
    let mut out: Vec<Coordinate> = Vec::new();
    let mut i: usize = 0;
    while i < n
        invariant
            0 <= i <= n,
            n == v@.len(),
            out@.len() == i,
            forall|k: int| 0 <= k < i ==> out@[k] == #[trigger] v@[k],
        decreases n - i,
    {
        out.push(v[i]);
        i = i + 1;
    }
    proof {
        assert(out@ =~= v@);
    }
    out
}

/// Validation service for ship placement against a player's own board.
pub struct ShipValidator;

impl ShipValidator {
    /// Validates one candidate ship against the current own-board snapshot:
    /// bounds, straightness, contiguity, overlap, adjacency, and length.
    pub fn validate_ship_placement(board: &Board, size: u8, coords: &[Coordinate]) -> (r: Result<
        (),
        GameError,
    >)
        requires
            board_wf(board@, size),
        ensures
            r is Ok <==> (ship_shape_ok(coords@, size) && no_overlap_on_board(board@, size, coords@)
                && no_adjacent_on_board(board@, size, coords@)),
            r matches Err(e) ==> e is Invalid,
    {
        if coords.is_empty() {
            return Err(GameError::Invalid("empty ship"));
        }
        crate::validation::validate_ship_placement(board, coords, size)
    }

    /// Parses one ship group written as `"x,y;x,y;..."`. The grammar is
    /// strict: a malformed pair or an off-board value is an `Invalid` error.
    pub fn parse_ship_coords(group: &str) -> (r: Result<Vec<Coordinate>, GameError>)
        ensures
            r is Ok <==> (crate::codec::parse_pairs(group@) matches Some(ps)
                && crate::codec::pairs_in_range(ps)),
            r matches Ok(v) ==> (crate::codec::parse_pairs(group@) matches Some(ps) && v@
                == crate::codec::coords_of_pairs(ps)),
            r matches Err(e) ==> e is Invalid,
    {
        crate::codec::parse_coords(group)
    }
}

} // verus!
