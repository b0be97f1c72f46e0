//! The tile grid: a rectangular map of tile codes with a solid border.

use vstd::prelude::*;

verus! {

/// Largest number of rows or columns of a grid: every cell stays
/// addressable by the integer part of a 16.16 coordinate.
pub const MAX_SIDE: usize = 32767;

/// Why a set of rows is not a tile grid.
#[derive(Clone, Copy, Debug, PartialEq, Eq, Structural)]
pub enum GridError {
    /// There is no row, or the first row has no cell.
    Empty,
    /// More than `MAX_SIDE` rows or columns.
    TooLarge,
    /// Some row is not as long as the first.
    Ragged,
    /// Some cell on the border is empty.
    OpenBorder,
}

/// Every row is as long as the first.
pub open spec fn is_rectangular(rows: Seq<Seq<u8>>) -> bool {
    forall|r: int| 0 <= r < rows.len() ==> (#[trigger] rows[r]).len() == rows[0].len()
}

/// The cell lies in the first or last row or column.
pub open spec fn on_border(rows: Seq<Seq<u8>>, col: int, row: int) -> bool {
    row == 0 || row == rows.len() - 1 || col == 0 || col == rows[0].len() - 1
}

/// No cell on the border is empty.
pub open spec fn has_closed_border(rows: Seq<Seq<u8>>) -> bool {
    forall|col: int, row: int|
        0 <= row < rows.len() && 0 <= col < rows[0].len() && on_border(rows, col, row)
            ==> #[trigger] rows[row][col] != 0
}

/// The first reason, if any, that keeps `rows` from being a tile grid.
pub open spec fn grid_defect(rows: Seq<Seq<u8>>) -> Option<GridError> {
    if rows.len() == 0 || rows[0].len() == 0 {
        Some(GridError::Empty)
    } else if rows.len() > MAX_SIDE || rows[0].len() > MAX_SIDE {
        Some(GridError::TooLarge)
    } else if !is_rectangular(rows) {
        Some(GridError::Ragged)
    } else if !has_closed_border(rows) {
        Some(GridError::OpenBorder)
    } else {
        None
    }
}

/// The tile code at a cell; cells outside the grid are empty.
pub open spec fn tile_in(rows: Seq<Seq<u8>>, col: int, row: int) -> u8 {
    if 0 <= row < rows.len() && 0 <= col < rows[row].len() {
        rows[row][col]
    } else {
        0
    }
}

/// The rows of tile codes that nested vectors hold.
pub open spec fn rows_of(cells: Seq<Vec<u8>>) -> Seq<Seq<u8>> {
    Seq::new(cells.len(), |r: int| cells[r]@)
}

/// A rectangular map of tile codes: 0 is empty space, any other code is a
/// solid wall. The border is solid, so a ray that starts inside meets a wall.
#[derive(Debug)]
pub struct TileGrid {
    cells: Vec<Vec<u8>>,
}

impl View for TileGrid {
    type V = Seq<Seq<u8>>;

    closed spec fn view(&self) -> Seq<Seq<u8>> {
        rows_of(self.cells@)
    }
}

impl TileGrid {
    /// The rows form a grid: rectangular, within size, closed.
    #[verifier::type_invariant]
    pub open spec fn wf(self) -> bool {
        grid_defect(self@) is None
    }

    /// Number of columns.
    pub open spec fn cols(self) -> int {
        self@[0].len() as int
    }

    /// Number of rows.
    pub open spec fn rows(self) -> int {
        self@.len() as int
    }

    /// The tile code at a cell; cells outside the grid are empty.
    pub open spec fn tile(self, col: int, row: int) -> u8 {
        tile_in(self@, col, row)
    }

    /// Takes `cells`, row by row, as a grid, or says what is wrong with them.
    pub fn new(cells: Vec<Vec<u8>>) -> (res: Result<TileGrid, GridError>)
        ensures
            match res {
                Ok(grid) => grid_defect(rows_of(cells@)) is None && grid@ == rows_of(cells@)
                    && grid.wf(),
                Err(e) => grid_defect(rows_of(cells@)) == Some(e),
            },
    {
        let ghost rows = rows_of(cells@);
        let height: usize = cells.len();
        if height == 0 {
            return Err(GridError::Empty);
        }
        let width: usize = cells[0].len();
        assert(rows[0] == cells[0]@);
        if width == 0 {
            return Err(GridError::Empty);
        }
        if height > MAX_SIDE || width > MAX_SIDE {
            return Err(GridError::TooLarge);
        }
        let mut r: usize = 0;
        while r < height
            invariant
                r <= height == cells.len(),
                0 < height <= MAX_SIDE,
                0 < width <= MAX_SIDE,
                rows == rows_of(cells@),
                width == rows[0].len(),
                forall|k: int| 0 <= k < r ==> (#[trigger] rows[k]).len() == width,
            decreases height - r,
        {
            assert(rows[r as int] == cells[r as int]@);
            if cells[r].len() != width {
                return Err(GridError::Ragged);
            }
            r += 1;
        }
        assert(is_rectangular(rows));
        let mut row: usize = 0;
        while row < height
            invariant
                row <= height == cells.len(),
                0 < height <= MAX_SIDE,
                0 < width <= MAX_SIDE,
                rows == rows_of(cells@),
                width == rows[0].len(),
                is_rectangular(rows),
                forall|c: int, k: int|
                    0 <= k < row && 0 <= c < width && on_border(rows, c, k)
                        ==> #[trigger] rows[k][c] != 0,
            decreases height - row,
        {
            assert(rows[row as int] == cells[row as int]@);
            let mut col: usize = 0;
            while col < width
                invariant
                    col <= width,
                    row < height == cells.len(),
                    0 < height <= MAX_SIDE,
                    0 < width <= MAX_SIDE,
                    is_rectangular(rows),
                    rows == rows_of(cells@),
                    width == rows[0].len(),
                    rows[row as int] == cells[row as int]@,
                    rows[row as int].len() == width,
                    forall|c: int, k: int|
                        0 <= k < row && 0 <= c < width && on_border(rows, c, k)
                            ==> #[trigger] rows[k][c] != 0,
                    forall|c: int|
                        0 <= c < col && on_border(rows, c, row as int)
                            ==> #[trigger] rows[row as int][c] != 0,
                decreases width - col,
            {
                let edge: bool = row == 0 || row == height - 1 || col == 0 || col == width - 1;
                if edge && cells[row][col] == 0 {
                    assert(on_border(rows, col as int, row as int));
                    assert(rows[row as int][col as int] == 0);
                    return Err(GridError::OpenBorder);
                }
                col += 1;
            }
            row += 1;
        }
        assert(has_closed_border(rows));
        let grid = TileGrid { cells };
        Ok(grid)
    }

    /// Number of columns.
    pub fn width(&self) -> (w: usize)
        ensures
            w == self.cols(),
            1 <= w <= MAX_SIDE,
    {
        proof {
            use_type_invariant(self);
            assert(self@[0] == self.cells@[0]@);
        }
        self.cells[0].len()
    }

    /// Number of rows.
    pub fn height(&self) -> (h: usize)
        ensures
            h == self.rows(),
            1 <= h <= MAX_SIDE,
    {
        proof {
            use_type_invariant(self);
        }
        self.cells.len()
    }

    /// The tile code at a cell; cells outside the grid read as empty.
    pub fn tile_at(&self, col: i64, row: i64) -> (code: u8)
        ensures
            code == self.tile(col as int, row as int),
    {
        proof {
            use_type_invariant(self);
        }
        if row < 0 || col < 0 || row > MAX_SIDE as i64 || col > MAX_SIDE as i64 {
            return 0;
        }
        let r: usize = row as usize;
        let c: usize = col as usize;
        if r >= self.cells.len() {
            return 0;
        }
        assert(self@[r as int] == self.cells@[r as int]@);
        if c >= self.cells[r].len() {
            return 0;
        }
        self.cells[r][c]
    }

    /// Whether an observer may stand in a cell: it lies in the grid and is empty.
    pub open spec fn walkable(self, col: int, row: int) -> bool {
        0 <= row < self.rows() && 0 <= col < self.cols() && self.tile(col, row) == 0
    }

    /// Whether an observer may stand in a cell: it lies in the grid and is empty.
    pub fn is_walkable(&self, col: i64, row: i64) -> (free: bool)
        ensures
            free == self.walkable(col as int, row as int),
    {
        proof {
            use_type_invariant(self);
        }
        if row < 0 || col < 0 || row > MAX_SIDE as i64 || col > MAX_SIDE as i64 {
            return false;
        }
        let r: usize = row as usize;
        let c: usize = col as usize;
        if r >= self.cells.len() {
            return false;
        }
        assert(self@[r as int] == self.cells@[r as int]@);
        if c >= self.cells[r].len() {
            return false;
        }
        self.cells[r][c] == 0
    }
}

} // verus!
