//! Placement validation pipeline: independent predicate validators for
//! single-ship geometry, board-relative checks, and whole-fleet rules,
//! composed in a fixed order with short-circuiting.

use crate::board::{
    board_wf, cell_value, has_adjacent_ship, Board, Cell, Coordinate,
};
use crate::GameError;
use vstd::prelude::*;

verus! {

/// Every coordinate lies on a board of the given side length.
pub open spec fn all_coords_in(cs: Seq<Coordinate>, size: u8) -> bool {
    forall|i: int| 0 <= i < cs.len() ==> #[trigger] cs[i].x < size && cs[i].y < size
}

/// All coordinates share one column.
pub open spec fn all_same_x(cs: Seq<Coordinate>) -> bool {
    forall|i: int| 0 <= i < cs.len() ==> #[trigger] cs[i].x == cs[0].x
}

/// All coordinates share one row.
pub open spec fn all_same_y(cs: Seq<Coordinate>) -> bool {
    forall|i: int| 0 <= i < cs.len() ==> #[trigger] cs[i].y == cs[0].y
}

/// The coordinates form a straight line: they share exactly one axis.
/// Lists of at most one coordinate count as straight.
pub open spec fn straight(cs: Seq<Coordinate>) -> bool {
    cs.len() <= 1 || (all_same_x(cs) != all_same_y(cs))
}

/// The rows of the coordinates, in order.
pub open spec fn ys_of(cs: Seq<Coordinate>) -> Seq<u8> {
    Seq::new(cs.len(), |i: int| cs[i].y)
}

/// The columns of the coordinates, in order.
pub open spec fn xs_of(cs: Seq<Coordinate>) -> Seq<u8> {
    Seq::new(cs.len(), |i: int| cs[i].x)
}

/// The values are pairwise distinct and all fit in a window as long as the
/// list itself, so they are exactly one unbroken run of consecutive values.
pub open spec fn unbroken_run(v: Seq<u8>) -> bool {
    &&& forall|i: int, j: int| #![trigger v[i], v[j]]
        0 <= i < v.len() && 0 <= j < v.len() && i != j ==> v[i] != v[j]
    &&& forall|i: int, j: int| #![trigger v[i], v[j]]
        0 <= i < v.len() && 0 <= j < v.len() ==> v[i] - v[j] < v.len()
}

/// The coordinates are contiguous: sorted along the varying axis they step by
/// exactly one unit, with the other axis fixed.
pub open spec fn contiguous(cs: Seq<Coordinate>) -> bool {
    if all_same_x(cs) {
        unbroken_run(ys_of(cs))
    } else {
        all_same_y(cs) && unbroken_run(xs_of(cs))
    }
}

/// A single ship's intrinsic shape rules: length 2 to 5, every coordinate on
/// the board, straight, and contiguous.
pub open spec fn ship_shape_ok(cs: Seq<Coordinate>, size: u8) -> bool {
    &&& 2 <= cs.len() <= 5
    &&& all_coords_in(cs, size)
    &&& straight(cs)
    &&& contiguous(cs)
}

/// Two coordinates touch: Chebyshev distance at most one, but not equal.
pub open spec fn coords_adjacent(a: Coordinate, b: Coordinate) -> bool {
    &&& -1 <= a.x - b.x <= 1
    &&& -1 <= a.y - b.y <= 1
    &&& !(a.x == b.x && a.y == b.y)
}

/// The coordinates in the list are pairwise distinct.
pub open spec fn coords_distinct(cs: Seq<Coordinate>) -> bool {
    forall|i: int, j: int| #![trigger cs[i], cs[j]]
        0 <= i < cs.len() && 0 <= j < cs.len() && i != j ==> cs[i] != cs[j]
}

/// Some coordinate appears in both lists.
pub open spec fn ships_overlap(a: Seq<Coordinate>, b: Seq<Coordinate>) -> bool {
    exists|i: int, j: int| #![trigger a[i], b[j]] 0 <= i < a.len() && 0 <= j < b.len() && a[i] == b[j]
}

/// Some coordinate of one list touches some coordinate of the other.
pub open spec fn ships_adjacent(a: Seq<Coordinate>, b: Seq<Coordinate>) -> bool {
    exists|i: int, j: int| #![trigger a[i], b[j]]
        0 <= i < a.len() && 0 <= j < b.len() && coords_adjacent(a[i], b[j])
}

/// No candidate coordinate lands on a cell already marked `Ship`.
pub open spec fn no_overlap_on_board(cells: Seq<u8>, size: u8, cs: Seq<Coordinate>) -> bool {
    forall|i: int|
        0 <= i < cs.len() ==> cell_value(cells, size, #[trigger] cs[i].x as int, cs[i].y as int)
            != Cell::Ship.as_u8()
}

/// No candidate coordinate has a `Ship` in its 8-neighborhood.
pub open spec fn no_adjacent_on_board(cells: Seq<u8>, size: u8, cs: Seq<Coordinate>) -> bool {
    forall|i: int|
        0 <= i < cs.len() ==> !has_adjacent_ship(cells, size, #[trigger] cs[i].x, cs[i].y)
}

/// The views of a list of coordinate vectors.
pub open spec fn coords_views(groups: Seq<Vec<Coordinate>>) -> Seq<Seq<Coordinate>> {
    Seq::new(groups.len(), |i: int| groups[i]@)
}

/// How many ships in the fleet have the given length.
pub open spec fn count_ships_of_len(css: Seq<Seq<Coordinate>>, l: nat) -> nat
    decreases css.len(),
{
    if css.len() == 0 {
        0
    } else {
        count_ships_of_len(css.drop_last(), l) + if css.last().len() == l {
            1nat
        } else {
            0nat
        }
    }
}

/// The mandated fleet: one ship of length 5, one of 4, two of 3, one of 2.
pub open spec fn fleet_composition_ok(css: Seq<Seq<Coordinate>>) -> bool {
    &&& count_ships_of_len(css, 2) == 1
    &&& count_ships_of_len(css, 3) == 2
    &&& count_ships_of_len(css, 4) == 1
    &&& count_ships_of_len(css, 5) == 1
}

/// No coordinate appears twice anywhere in the fleet: each ship's coordinates
/// are distinct, and no coordinate is shared between two ships.
pub open spec fn fleet_distinct(css: Seq<Seq<Coordinate>>) -> bool {
    &&& forall|i: int| 0 <= i < css.len() ==> coords_distinct(#[trigger] css[i])
    &&& forall|i: int, j: int| #![trigger css[i], css[j]]
        0 <= i < css.len() && 0 <= j < css.len() && i != j ==> !ships_overlap(css[i], css[j])
}

/// No two distinct ships of the fleet touch, diagonals included.
pub open spec fn fleet_separated(css: Seq<Seq<Coordinate>>) -> bool {
    forall|i: int, j: int| #![trigger css[i], css[j]]
        0 <= i < css.len() && 0 <= j < css.len() && i != j ==> !ships_adjacent(css[i], css[j])
}

/// Checks that every coordinate of the slice lies on the board.
fn bounds_ok(coords: &[Coordinate], size: u8) -> (r: bool)
    ensures
        r == all_coords_in(coords@, size),
{
    let n = coords.len();
    let mut i: usize = 0;
    while i < n
        invariant
            0 <= i <= n,
            n == coords@.len(),
            forall|k: int|
                0 <= k < i ==> ((#[trigger] coords@[k]).x < size && coords@[k].y < size),
        decreases n - i,
    {
        let c = coords[i];
        if c.x >= size || c.y >= size {
            return false;
        }
        proof {
            assert(coords@[i as int].x < size && coords@[i as int].y < size);
        }
        i = i + 1;
    }
    true
}

/// Checks that all coordinates share one column.
fn same_x_ok(coords: &[Coordinate]) -> (r: bool)
    ensures
        r == all_same_x(coords@),
{
    let n = coords.len();
    if n == 0 {
        return true;
    }
    let x0 = coords[0].x;
    let mut i: usize = 1;
    while i < n
        invariant
            1 <= i <= n,
            n == coords@.len(),
            x0 == coords@[0].x,
            forall|k: int| 0 <= k < i ==> #[trigger] coords@[k].x == coords@[0].x,
        decreases n - i,
    {
        let c = coords[i];
        if c.x != x0 {
            return false;
        }
        proof {
            assert(coords@[i as int].x == coords@[0].x);
        }
        i = i + 1;
    }
    true
}

/// Checks that all coordinates share one row.
fn same_y_ok(coords: &[Coordinate]) -> (r: bool)
    ensures
        r == all_same_y(coords@),
{
    let n = coords.len();
    if n == 0 {
        return true;
    }
    let y0 = coords[0].y;
    let mut i: usize = 1;
    while i < n
        invariant
            1 <= i <= n,
            n == coords@.len(),
            y0 == coords@[0].y,
            forall|k: int| 0 <= k < i ==> #[trigger] coords@[k].y == coords@[0].y,
        decreases n - i,
    {
        let c = coords[i];
        if c.y != y0 {
            return false;
        }
        proof {
            assert(coords@[i as int].y == coords@[0].y);
        }
        i = i + 1;
    }
    true
}

/// Checks that the coordinates form a straight line.
pub fn straight_ok(coords: &[Coordinate]) -> (r: bool)
    ensures
        r == straight(coords@),
{
    if coords.len() <= 1 {
        return true;
    }
    let sx = same_x_ok(coords);
    let sy = same_y_ok(coords);
    sx != sy
}

/// Checks that the given values are one unbroken run of consecutive values.
fn unbroken_run_ok(v: &Vec<u8>) -> (r: bool)
    ensures
        r == unbroken_run(v@),
{
    let n = v.len();
    let mut i: usize = 0;
    while i < n
        invariant
            0 <= i <= n,
            n == v@.len(),
            forall|a: int, b: int| #![trigger v@[a], v@[b]]
                0 <= a < i && 0 <= b < n && a != b ==> v@[a] != v@[b],
            forall|a: int, b: int| #![trigger v@[a], v@[b]]
                0 <= a < i && 0 <= b < n ==> v@[a] - v@[b] < n,
        decreases n - i,
    {
        let mut j: usize = 0;
        while j < n
            invariant
                0 <= i < n,
                0 <= j <= n,
                n == v@.len(),
                forall|a: int, b: int| #![trigger v@[a], v@[b]]
                    0 <= a < i && 0 <= b < n && a != b ==> v@[a] != v@[b],
                forall|a: int, b: int| #![trigger v@[a], v@[b]]
                    0 <= a < i && 0 <= b < n ==> v@[a] - v@[b] < n,
                forall|b: int| 0 <= b < j && b != i ==> v@[i as int] != #[trigger] v@[b],
                forall|b: int| 0 <= b < j ==> v@[i as int] - #[trigger] v@[b] < n,
            decreases n - j,
        {
            if i != j && v[i] == v[j] {
                return false;
            }
            let hi = if v[i] >= v[j] {
                v[i] - v[j]
            } else {
                0
            };
            if (hi as usize) >= n {
                return false;
            }
            j = j + 1;
        }
        i = i + 1;
    }
    true
}

/// The rows of the coordinates as a vector.
fn collect_ys(coords: &[Coordinate]) -> (r: Vec<u8>)
    ensures
        r@ == ys_of(coords@),
{
    let n = coords.len();
    let mut out: Vec<u8> = Vec::new();
    let mut i: usize = 0;
    while i < n
        invariant
            0 <= i <= n,
            n == coords@.len(),
            out@.len() == i,
            forall|k: int| 0 <= k < i ==> out@[k] == #[trigger] coords@[k].y,
        decreases n - i,
    {
        let c = coords[i];
        out.push(c.y);
        i = i + 1;
    }
    proof {
        assert(out@ =~= ys_of(coords@));
    }
    out
}

/// The columns of the coordinates as a vector.
fn collect_xs(coords: &[Coordinate]) -> (r: Vec<u8>)
    ensures
        r@ == xs_of(coords@),
{
    let n = coords.len();
    let mut out: Vec<u8> = Vec::new();
    let mut i: usize = 0;
    while i < n
        invariant
            0 <= i <= n,
            n == coords@.len(),
            out@.len() == i,
            forall|k: int| 0 <= k < i ==> out@[k] == #[trigger] coords@[k].x,
        decreases n - i,
    {
        let c = coords[i];
        out.push(c.x);
        i = i + 1;
    }
    proof {
        assert(out@ =~= xs_of(coords@));
    }
    out
}

/// Checks that the coordinates are contiguous along their varying axis.
pub fn contiguous_ok(coords: &[Coordinate]) -> (r: bool)
    ensures
        r == contiguous(coords@),
{
    if same_x_ok(coords) {
        let ys = collect_ys(coords);
        unbroken_run_ok(&ys)
    } else {
        if !same_y_ok(coords) {
            return false;
        }
        let xs = collect_xs(coords);
        unbroken_run_ok(&xs)
    }
}

/// Checks that the coordinates are pairwise distinct.
pub fn distinct_ok(coords: &[Coordinate]) -> (r: bool)
    ensures
        r == coords_distinct(coords@),
{
    let n = coords.len();
    let mut i: usize = 0;
    while i < n
        invariant
            0 <= i <= n,
            n == coords@.len(),
            forall|a: int, b: int| #![trigger coords@[a], coords@[b]]
                0 <= a < i && 0 <= b < n && a != b ==> coords@[a] != coords@[b],
        decreases n - i,
    {
        let mut j: usize = 0;
        while j < n
            invariant
                0 <= i < n,
                0 <= j <= n,
                n == coords@.len(),
                forall|a: int, b: int| #![trigger coords@[a], coords@[b]]
                    0 <= a < i && 0 <= b < n && a != b ==> coords@[a] != coords@[b],
                forall|b: int| 0 <= b < j && b != i ==> coords@[i as int] != #[trigger] coords@[b],
            decreases n - j,
        {
            let a = coords[i];
            let b = coords[j];
            if i != j && a.x == b.x && a.y == b.y {
                proof {
                    assert(coords@[i as int] == coords@[j as int]);
                }
                return false;
            }
            proof {
                assert(i != j ==> coords@[i as int] != coords@[j as int]);
            }
            j = j + 1;
        }
        i = i + 1;
    }
    true
}

/// Checks whether two coordinates touch (Chebyshev distance one).
pub fn adjacent_pair(a: &Coordinate, b: &Coordinate) -> (r: bool)
    ensures
        r == coords_adjacent(*a, *b),
{
    let dx = if a.x >= b.x {
        a.x - b.x
    } else {
        b.x - a.x
    };
    let dy = if a.y >= b.y {
        a.y - b.y
    } else {
        b.y - a.y
    };
    dx <= 1 && dy <= 1 && !(dx == 0 && dy == 0)
}

/// Checks whether some coordinate appears in both slices.
pub fn slices_overlap(a: &[Coordinate], b: &[Coordinate]) -> (r: bool)
    ensures
        r == ships_overlap(a@, b@),
{
    let na = a.len();
    let nb = b.len();
    let mut i: usize = 0;
    while i < na
        invariant
            0 <= i <= na,
            na == a@.len(),
            nb == b@.len(),
            forall|p: int, q: int| #![trigger a@[p], b@[q]]
                0 <= p < i && 0 <= q < nb ==> a@[p] != b@[q],
        decreases na - i,
    {
        let mut j: usize = 0;
        while j < nb
            invariant
                0 <= i < na,
                0 <= j <= nb,
                na == a@.len(),
                nb == b@.len(),
                forall|p: int, q: int| #![trigger a@[p], b@[q]]
                    0 <= p < i && 0 <= q < nb ==> a@[p] != b@[q],
                forall|q: int| 0 <= q < j ==> a@[i as int] != #[trigger] b@[q],
            decreases nb - j,
        {
            let p = a[i];
            let q = b[j];
            if p.x == q.x && p.y == q.y {
                proof {
                    assert(a@[i as int] == b@[j as int]);
                }
                return true;
            }
            proof {
                assert(a@[i as int] != b@[j as int]);
            }
            j = j + 1;
        }
        i = i + 1;
    }
    false
}

/// Checks whether some coordinate of one slice touches one of the other.
pub fn slices_adjacent(a: &[Coordinate], b: &[Coordinate]) -> (r: bool)
    ensures
        r == ships_adjacent(a@, b@),
{
    let na = a.len();
    let nb = b.len();
    let mut i: usize = 0;
    while i < na
        invariant
            0 <= i <= na,
            na == a@.len(),
            nb == b@.len(),
            forall|p: int, q: int| #![trigger a@[p], b@[q]]
                0 <= p < i && 0 <= q < nb ==> !coords_adjacent(a@[p], b@[q]),
        decreases na - i,
    {
        let mut j: usize = 0;
        while j < nb
            invariant
                0 <= i < na,
                0 <= j <= nb,
                na == a@.len(),
                nb == b@.len(),
                forall|p: int, q: int| #![trigger a@[p], b@[q]]
                    0 <= p < i && 0 <= q < nb ==> !coords_adjacent(a@[p], b@[q]),
                forall|q: int|
                    0 <= q < j ==> !coords_adjacent(a@[i as int], #[trigger] b@[q]),
            decreases nb - j,
        {
            let p = a[i];
            let q = b[j];
            if adjacent_pair(&p, &q) {
                return true;
            }
            j = j + 1;
        }
        i = i + 1;
    }
    false
}

/// Checks that no candidate coordinate lands on a `Ship` cell.
fn overlap_free(board: &Board, size: u8, coords: &[Coordinate]) -> (r: bool)
    requires
        board_wf(board@, size),
        all_coords_in(coords@, size),
    ensures
        r == no_overlap_on_board(board@, size, coords@),
{
    let n = coords.len();
    let mut i: usize = 0;
    while i < n
        invariant
            0 <= i <= n,
            n == coords@.len(),
            board_wf(board@, size),
            all_coords_in(coords@, size),
            forall|k: int|
                0 <= k < i ==> cell_value(board@, size, #[trigger] coords@[k].x as int,
                    coords@[k].y as int) != Cell::Ship.as_u8(),
        decreases n - i,
    {
        let co = coords[i];
        let c = board.get(size, co.x, co.y);
        if matches!(c, Cell::Ship) {
            return false;
        }
        i = i + 1;
    }
    true
}

/// Checks that no candidate coordinate has a `Ship` in its 8-neighborhood.
fn adjacency_free(board: &Board, size: u8, coords: &[Coordinate]) -> (r: bool)
    requires
        board_wf(board@, size),
    ensures
        r == no_adjacent_on_board(board@, size, coords@),
{
    let n = coords.len();
    let mut i: usize = 0;
    while i < n
        invariant
            0 <= i <= n,
            n == coords@.len(),
            board_wf(board@, size),
            forall|k: int|
                0 <= k < i ==> !has_adjacent_ship(board@, size, #[trigger] coords@[k].x,
                    coords@[k].y),
        decreases n - i,
    {
        let co = coords[i];
        if board.is_adjacent_violation(size, co.x, co.y) {
            return false;
        }
        i = i + 1;
    }
    true
}

/// Bounds validator on its own: every coordinate on a board of the given
/// side length.
pub fn validate_coordinates(coords: &[Coordinate], size: u8) -> (r: Result<(), GameError>)
    ensures
        r is Ok <==> all_coords_in(coords@, size),
        r matches Err(e) ==> e is Invalid,
{
    if bounds_ok(coords, size) {
        Ok(())
    } else {
        Err(GameError::Invalid("coordinate out of bounds"))
    }
}

/// Runs the per-ship validators in a fixed order with short-circuiting:
/// bounds, straight line, contiguity, overlap, adjacency, ship length.
pub fn validate_ship_placement(board: &Board, coords: &[Coordinate], size: u8) -> (r: Result<
    (),
    GameError,
>)
    requires
        board_wf(board@, size),
    ensures
        r is Ok <==> (ship_shape_ok(coords@, size) && no_overlap_on_board(board@, size, coords@)
            && no_adjacent_on_board(board@, size, coords@)),
        r matches Err(e) ==> e is Invalid,
{
    if !bounds_ok(coords, size) {
        return Err(GameError::Invalid("coordinate out of bounds"));
    }
    if !straight_ok(coords) {
        return Err(GameError::Invalid("ship must be straight"));
    }
    if !contiguous_ok(coords) {
        return Err(GameError::Invalid("ship must be contiguous"));
    }
    if !overlap_free(board, size, coords) {
        return Err(GameError::Invalid("ship overlaps another ship"));
    }
    if !adjacency_free(board, size, coords) {
        return Err(GameError::Invalid("ship touches another ship"));
    }
    if coords.len() < 2 || coords.len() > 5 {
        return Err(GameError::Invalid("ship length must be 2-5"));
    }
    Ok(())
}

/// Runs the fleet-level validators: exact composition counts, uniqueness of
/// every coordinate across the whole fleet, and pairwise ship separation.
pub fn validate_fleet_composition(
    ship_counts: [usize; 4],
    ship_coordinates: Vec<Vec<Coordinate>>,
) -> (r: Result<(), GameError>)
    ensures
        r is Ok <==> ({
            &&& ship_counts[0] == 1
            &&& ship_counts[1] == 2
            &&& ship_counts[2] == 1
            &&& ship_counts[3] == 1
            &&& fleet_distinct(coords_views(ship_coordinates@))
            &&& fleet_separated(coords_views(ship_coordinates@))
        }),
        r matches Err(e) ==> e is Invalid,
{
    if !(ship_counts[0] == 1 && ship_counts[1] == 2 && ship_counts[2] == 1 && ship_counts[3]
        == 1) {
        return Err(GameError::Invalid("fleet must be exactly 5,4,3,3,2"));
    }
    let ghost cvs = coords_views(ship_coordinates@);
    let n = ship_coordinates.len();
    let mut i: usize = 0;
    while i < n
        invariant
            0 <= i <= n,
            n == ship_coordinates@.len(),
            cvs == coords_views(ship_coordinates@),
            forall|k: int| 0 <= k < i ==> coords_distinct(#[trigger] cvs[k]),
            forall|p: int, q: int| #![trigger cvs[p], cvs[q]]
                0 <= p < i && 0 <= q < i && p != q ==> !ships_overlap(cvs[p], cvs[q]),
            forall|p: int, q: int| #![trigger cvs[p], cvs[q]]
                0 <= p < i && 0 <= q < i && p != q ==> !ships_adjacent(cvs[p], cvs[q]),
        decreases n - i,
    {
        if !distinct_ok(ship_coordinates[i].as_slice()) {
            proof {
                assert(!coords_distinct(cvs[i as int]));
            }
            return Err(GameError::Invalid("duplicate coordinate in fleet"));
        }
        let mut j: usize = 0;
        while j < i
            invariant
                0 <= j <= i < n,
                n == ship_coordinates@.len(),
                cvs == coords_views(ship_coordinates@),
                forall|q: int|
                    0 <= q < j ==> !ships_overlap(cvs[i as int], #[trigger] cvs[q])
                        && !ships_overlap(#[trigger] cvs[q], cvs[i as int]),
                forall|q: int|
                    0 <= q < j ==> !ships_adjacent(cvs[i as int], #[trigger] cvs[q])
                        && !ships_adjacent(#[trigger] cvs[q], cvs[i as int]),
            decreases i - j,
        {
            if slices_overlap(ship_coordinates[i].as_slice(), ship_coordinates[j].as_slice()) {
                proof {
                    assert(ships_overlap(cvs[i as int], cvs[j as int]));
                }
                return Err(GameError::Invalid("duplicate coordinate in fleet"));
            }
            if slices_adjacent(ship_coordinates[i].as_slice(), ship_coordinates[j].as_slice()) {
                proof {
                    assert(ships_adjacent(cvs[i as int], cvs[j as int]));
                }
                return Err(GameError::Invalid("ships must not touch"));
            }
            proof {
                lemma_overlap_symmetric(cvs[i as int], cvs[j as int]);
                lemma_adjacent_symmetric(cvs[i as int], cvs[j as int]);
            }
            j = j + 1;
        }
        i = i + 1;
    }
    Ok(())
}

/// Overlap between two coordinate lists is symmetric.
pub proof fn lemma_overlap_symmetric(a: Seq<Coordinate>, b: Seq<Coordinate>)
    ensures
        ships_overlap(a, b) == ships_overlap(b, a),
{
    if ships_overlap(a, b) {
        let (i, j) = choose|i: int, j: int| #![trigger a[i], b[j]]
            0 <= i < a.len() && 0 <= j < b.len() && a[i] == b[j];
        assert(0 <= j < b.len() && 0 <= i < a.len() && b[j] == a[i]);
    }
    if ships_overlap(b, a) {
        let (i, j) = choose|i: int, j: int| #![trigger b[i], a[j]]
            0 <= i < b.len() && 0 <= j < a.len() && b[i] == a[j];
        assert(0 <= j < a.len() && 0 <= i < b.len() && a[j] == b[i]);
    }
}

/// Adjacency between two coordinate lists is symmetric.
pub proof fn lemma_adjacent_symmetric(a: Seq<Coordinate>, b: Seq<Coordinate>)
    ensures
        ships_adjacent(a, b) == ships_adjacent(b, a),
{
    if ships_adjacent(a, b) {
        let (i, j) = choose|i: int, j: int| #![trigger a[i], b[j]]
            0 <= i < a.len() && 0 <= j < b.len() && coords_adjacent(a[i], b[j]);
        assert(coords_adjacent(b[j], a[i]));
    }
    if ships_adjacent(b, a) {
        let (i, j) = choose|i: int, j: int| #![trigger b[i], a[j]]
            0 <= i < b.len() && 0 <= j < a.len() && coords_adjacent(b[i], a[j]);
        assert(coords_adjacent(a[j], b[i]));
    }
}

} // verus!
