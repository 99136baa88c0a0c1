//! Board representation: coordinates, cell states, and the flat row-major
//! grid shared by ship layouts and shot histories.

use crate::GameError;
use vstd::prelude::*;

verus! {

/// Side length of the square grid.
pub const BOARD_SIZE: u8 = 10;

/// A position on the board. Both components must lie in `[0, BOARD_SIZE)`.
#[derive(Debug, Clone, Copy, PartialEq, Eq, Structural)]
pub struct Coordinate {
    /// Column, `0..BOARD_SIZE`.
    pub x: u8,
    /// Row, `0..BOARD_SIZE`.
    pub y: u8,
}

/// Whether a coordinate pair lies on the board.
pub open spec fn coord_in_range(x: u8, y: u8) -> bool {
    x < BOARD_SIZE && y < BOARD_SIZE
}

impl Coordinate {
    /// Builds a coordinate, rejecting out-of-range components.
    pub fn new(x: u8, y: u8) -> (r: Result<Coordinate, GameError>)
        ensures
            r is Ok <==> coord_in_range(x, y),
            r matches Ok(c) ==> c == (Coordinate { x, y }),
            r matches Err(e) ==> e is Invalid,
    {
        if x >= BOARD_SIZE || y >= BOARD_SIZE {
            return Err(GameError::Invalid("coordinate out of bounds"));
        }
        Ok(Coordinate { x, y })
    }

    /// Whether both components are on the board.
    pub fn is_valid(&self) -> (r: bool)
        ensures
            r == coord_in_range(self.x, self.y),
    {
        self.x < BOARD_SIZE && self.y < BOARD_SIZE
    }
}

/// The state of one grid position.
#[derive(Debug, Clone, Copy, PartialEq, Eq, Structural)]
pub enum Cell {
    /// No ship and no shot.
    Empty,
    /// Part of a ship.
    Ship,
    /// A shot that struck a ship.
    Hit,
    /// A shot that struck open water.
    Miss,
    /// A proposed shot that is not yet resolved.
    Pending,
}

impl Cell {
    /// The byte code of this cell state.
    pub open spec fn as_u8(self) -> u8 {
        match self {
            Cell::Empty => 0,
            Cell::Ship => 1,
            Cell::Hit => 2,
            Cell::Miss => 3,
            Cell::Pending => 4,
        }
    }

    /// The cell state a byte code denotes; unassigned codes mean `Empty`.
    pub open spec fn spec_from_u8(value: u8) -> Cell {
        if value == 1 {
            Cell::Ship
        } else if value == 2 {
            Cell::Hit
        } else if value == 3 {
            Cell::Miss
        } else if value == 4 {
            Cell::Pending
        } else {
            Cell::Empty
        }
    }

    /// Encodes this cell state as its byte code.
    pub fn to_u8(self) -> (r: u8)
        ensures
            r == self.as_u8(),
    {
        match self {
            Cell::Empty => 0,
            Cell::Ship => 1,
            Cell::Hit => 2,
            Cell::Miss => 3,
            Cell::Pending => 4,
        }
    }

    /// Decodes a byte code; unassigned codes decode to `Empty`.
    pub fn from_u8(value: u8) -> (r: Cell)
        ensures
            r == Cell::spec_from_u8(value),
    {
        match value {
            1 => Cell::Ship,
            2 => Cell::Hit,
            3 => Cell::Miss,
            4 => Cell::Pending,
            _ => Cell::Empty,
        }
    }
}

/// Row-major index of `(x, y)` on a board of the given side length.
pub open spec fn board_index(size: u8, x: int, y: int) -> int {
    y * size + x
}

/// The byte stored at `(x, y)`.
pub open spec fn cell_value(cells: Seq<u8>, size: u8, x: int, y: int) -> u8 {
    cells[board_index(size, x, y)]
}

/// A cell sequence has exactly one byte per grid position.
pub open spec fn board_wf(cells: Seq<u8>, size: u8) -> bool {
    cells.len() == size * size
}

/// The row-major index of an in-range position lies inside the grid.
pub proof fn lemma_board_index_bounds(size: u8, x: int, y: int)
    requires
        0 <= x < size,
        0 <= y < size,
    ensures
        0 <= board_index(size, x, y) < size * size,
{
    assert(0 <= y * size + x < size * size) by (nonlinear_arith)
        requires
            0 <= x < size,
            0 <= y < size,
    ;
}

/// Distinct in-range positions have distinct row-major indices.
pub proof fn lemma_board_index_injective(size: u8, x1: int, y1: int, x2: int, y2: int)
    requires
        0 <= x1 < size,
        0 <= y1 < size,
        0 <= x2 < size,
        0 <= y2 < size,
        board_index(size, x1, y1) == board_index(size, x2, y2),
    ensures
        x1 == x2 && y1 == y2,
{
    assert(x1 == x2 && y1 == y2) by (nonlinear_arith)
        requires
            0 <= x1 < size,
            0 <= y1 < size,
            0 <= x2 < size,
            0 <= y2 < size,
            y1 * size + x1 == y2 * size + x2,
    ;
}

/// Whether some cell in the 8-neighborhood of `(x, y)`, clamped to the board,
/// holds a `Ship`.
pub open spec fn has_adjacent_ship(cells: Seq<u8>, size: u8, x: u8, y: u8) -> bool {
    exists|dx: int, dy: int|
        -1 <= dx <= 1 && -1 <= dy <= 1 && #[trigger] neighbor_is_ship(cells, size, x, y, dx, dy)
}

/// Whether the position offset from `(x, y)` by `(dx, dy)` is a proper
/// neighbor (not the position itself), lies on the board, and holds a `Ship`.
pub open spec fn neighbor_is_ship(cells: Seq<u8>, size: u8, x: u8, y: u8, dx: int, dy: int) -> bool {
    &&& !(dx == 0 && dy == 0)
    &&& 0 <= x + dx < size
    &&& 0 <= y + dy < size
    &&& cell_value(cells, size, x + dx, y + dy) == Cell::Ship.as_u8()
}

/// A game board: one byte of cell state per grid position, row-major.
#[derive(Debug, Clone, PartialEq, Eq)]
pub struct Board(pub Vec<u8>);

impl View for Board {
    type V = Seq<u8>;

    open spec fn view(&self) -> Seq<u8> {
        self.0@
    }
}

impl Board {
    /// Builds a board of the given side length with every cell `Empty`.
    pub fn new_zeroed(size: u8) -> (r: Board)
        ensures
            board_wf(r@, size),
            forall|i: int| 0 <= i < r@.len() ==> r@[i] == 0,
    {
        proof {
            assert((size as int) * (size as int) <= 255 * 255) by (nonlinear_arith)
                requires
                    size <= 255,
            ;
        }
        let n = (size as usize) * (size as usize);
        Board(vec![0u8; n])
    }

    /// Row-major index of `(x, y)`.
    pub fn idx(size: u8, x: u8, y: u8) -> (r: usize)
        ensures
            r == board_index(size, x as int, y as int),
    {
        proof {
            assert((y as int) * (size as int) <= 255 * 255) by (nonlinear_arith)
                requires
                    y <= 255 && size <= 255,
            ;
        }
        (y as usize) * (size as usize) + (x as usize)
    }

    /// Whether `(x, y)` lies on a board of the given side length.
    pub fn in_bounds(size: u8, x: u8, y: u8) -> (r: bool)
        ensures
            r == (x < size && y < size),
    {
        x < size && y < size
    }

    /// Reads the cell at `(x, y)`. Callers must pre-validate the coordinates.
    pub fn get(&self, size: u8, x: u8, y: u8) -> (r: Cell)
        requires
            board_wf(self@, size),
            x < size,
            y < size,
        ensures
            r == Cell::spec_from_u8(cell_value(self@, size, x as int, y as int)),
    {
        proof {
            lemma_board_index_bounds(size, x as int, y as int);
        }
        Cell::from_u8(self.0[Board::idx(size, x, y)])
    }

    /// Writes the cell at `(x, y)`. Callers must pre-validate the coordinates.
    pub fn set(&mut self, size: u8, x: u8, y: u8, cell: Cell)
        requires
            board_wf(old(self)@, size),
            x < size,
            y < size,
        ensures
            final(self)@ == old(self)@.update(board_index(size, x as int, y as int), cell.as_u8()),
    {
        proof {
            lemma_board_index_bounds(size, x as int, y as int);
        }
        let i = Board::idx(size, x, y);
        self.0[i] = cell.to_u8();
    }

    /// Whether any of the 8 neighbors of `(x, y)`, clamped at the board
    /// edges, currently holds a `Ship`.
    pub fn is_adjacent_violation(&self, size: u8, x: u8, y: u8) -> (r: bool)
        requires
            board_wf(self@, size),
        ensures
            r == has_adjacent_ship(self@, size, x, y),
    {
        let mut dy: i32 = -1;
        while dy <= 1
            invariant
                -1 <= dy <= 2,
                board_wf(self@, size),
                forall|ddx: int, ddy: int|
                    -1 <= ddx <= 1 && -1 <= ddy < dy ==> !#[trigger] neighbor_is_ship(
                        self@,
                        size,
                        x,
                        y,
                        ddx,
                        ddy,
                    ),
            decreases 2 - dy,
        {
            let mut dx: i32 = -1;
            while dx <= 1
                invariant
                    -1 <= dy <= 1,
                    -1 <= dx <= 2,
                    board_wf(self@, size),
                    forall|ddx: int, ddy: int|
                        -1 <= ddx <= 1 && -1 <= ddy < dy ==> !#[trigger] neighbor_is_ship(
                            self@,
                            size,
                            x,
                            y,
                            ddx,
                            ddy,
                        ),
                    forall|ddx: int|
                        -1 <= ddx < dx ==> !#[trigger] neighbor_is_ship(
                            self@,
                            size,
                            x,
                            y,
                            ddx,
                            dy as int,
                        ),
                decreases 2 - dx,
            {
                if !(dx == 0 && dy == 0) {
                    let nx = x as i32 + dx;
                    let ny = y as i32 + dy;
                    if 0 <= nx && nx < size as i32 && 0 <= ny && ny < size as i32 {
                        let c = self.get(size, nx as u8, ny as u8);
                        if matches!(c, Cell::Ship) {
                            proof {
                                assert(neighbor_is_ship(self@, size, x, y, dx as int, dy as int));
                            }
                            return true;
                        }
                    }
                }
                dx = dx + 1;
            }
            dy = dy + 1;
        }
        false
    }
}

} // verus!
