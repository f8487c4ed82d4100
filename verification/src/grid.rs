//! Row-major grid shapes and the cells a bilinear sample reads.
//!
//! A grid of `rows x cols` cells is stored as one flat buffer in row-major
//! order: cell `[row, col]` sits at `row * cols + col`, so row `row` is the
//! contiguous chunk `row * cols .. (row + 1) * cols` of the buffer.
use vstd::prelude::*;

verus! {

/// Flat position of cell `[row, col]` in a row-major grid with `cols` columns.
pub open spec fn flat_index(cols: int, row: int, col: int) -> int {
    row * cols + col
}

/// The flat position of cell `[row, col]` of a `rows x cols` grid, or `None`
/// where that cell lies outside the grid.
pub open spec fn cell_in_grid(rows: int, cols: int, row: int, col: int) -> Option<int> {
    if 0 <= row < rows && 0 <= col < cols {
        Some(flat_index(cols, row, col))
    } else {
        None
    }
}

/// An executable index agrees with a spec cell: both absent, or both present
/// and equal.
pub open spec fn same_cell(found: Option<usize>, expected: Option<int>) -> bool {
    match (found, expected) {
        (Some(k), Some(e)) => k as int == e,
        (None, None) => true,
        _ => false,
    }
}

/// Shape of a row-major grid whose cell count fits in `usize`.
pub struct GridShape {
    rows: usize,
    cols: usize,
}

impl GridShape {
    #[verifier::type_invariant]
    spec fn cell_count_fits(self) -> bool {
        self.rows * self.cols <= usize::MAX
    }

    /// Number of rows.
    pub closed spec fn nrows(self) -> nat {
        self.rows as nat
    }

    /// Number of columns.
    pub closed spec fn ncols(self) -> nat {
        self.cols as nat
    }

    /// The shape `rows x cols`, or `None` where the number of cells does not
    /// fit in `usize` (a buffer for it could never be allocated).
    pub fn new(rows: usize, cols: usize) -> (shape: Option<GridShape>)
        ensures
            shape is Some <==> rows * cols <= usize::MAX,
            shape matches Some(s) ==> s.nrows() == rows && s.ncols() == cols,
    {
        match rows.checked_mul(cols) {
            Some(_) => Some(GridShape { rows, cols }),
            None => None,
        }
    }

    /// Number of rows.
    pub fn rows(&self) -> (r: usize)
        ensures
            r == self.nrows(),
    {
        self.rows
    }

    /// Number of columns.
    pub fn cols(&self) -> (c: usize)
        ensures
            c == self.ncols(),
    {
        self.cols
    }

    /// Number of cells, which is the length of the grid's flat buffer.
    pub fn len(&self) -> (n: usize)
        ensures
            n == self.nrows() * self.ncols(),
    {
        proof {
            use_type_invariant(self);
        }
        self.rows * self.cols
    }

    /// Flat position of cell `[row, col]`, which lies inside the grid.
    pub fn cell_index(&self, row: usize, col: usize) -> (k: usize)
        requires
            row < self.nrows(),
            col < self.ncols(),
        ensures
            k == flat_index(self.ncols() as int, row as int, col as int),
            k == row * self.ncols() + col,
            row * self.ncols() <= k < (row + 1) * self.ncols(),
            k < self.nrows() * self.ncols(),
    {
        proof {
            use_type_invariant(self);
            lemma_flat_index_in_grid(self.rows as int, self.cols as int, row as int, col as int);
        }
        row * self.cols + col
    }

    /// Flat position of cell `[row, col]` for coordinates that may lie
    /// outside the grid, or `None` where they do.
    fn cell_at_wide(&self, row: i128, col: i128) -> (k: Option<usize>)
        ensures
            same_cell(k, cell_in_grid(self.nrows() as int, self.ncols() as int, row as int, col as int)),
            k is Some <==> (0 <= row < self.nrows() && 0 <= col < self.ncols()),
            k matches Some(i) ==> i == row * self.ncols() + col,
    {
        if 0 <= row && row < self.rows as i128 && 0 <= col && col < self.cols as i128 {
            let r: usize = row as usize;
            let c: usize = col as usize;
            Some(self.cell_index(r, c))
        } else {
            None
        }
    }

    /// The four cells that a bilinear sample with lower-left cell
    /// `[row0, col0]` reads, in this order: `[row0, col0]`, `[row0, col0 + 1]`,
    /// `[row0 + 1, col0]`, `[row0 + 1, col0 + 1]`. A cell outside the grid
    /// is `None`: it is unobserved and contributes nothing to the sample.
    pub fn bilinear_corners(&self, row0: i64, col0: i64) -> (corners: [Option<usize>; 4])
        ensures
            same_cell(corners[0], cell_in_grid(self.nrows() as int, self.ncols() as int, row0 as int, col0 as int)),
            same_cell(corners[1], cell_in_grid(self.nrows() as int, self.ncols() as int, row0 as int, col0 + 1)),
            same_cell(corners[2], cell_in_grid(self.nrows() as int, self.ncols() as int, row0 + 1, col0 as int)),
            same_cell(corners[3], cell_in_grid(self.nrows() as int, self.ncols() as int, row0 + 1, col0 + 1)),
            corners[0] is Some <==> (0 <= row0 < self.nrows() && 0 <= col0 < self.ncols()),
            corners[0] matches Some(k) ==> k == row0 * self.ncols() + col0,
            corners[1] is Some <==> (0 <= row0 < self.nrows() && 0 <= (col0 + 1) < self.ncols()),
            corners[1] matches Some(k) ==> k == row0 * self.ncols() + (col0 + 1),
            corners[2] is Some <==> (0 <= (row0 + 1) < self.nrows() && 0 <= col0 < self.ncols()),
            corners[2] matches Some(k) ==> k == (row0 + 1) * self.ncols() + col0,
            corners[3] is Some <==> (0 <= (row0 + 1) < self.nrows() && 0 <= (col0 + 1) < self.ncols()),
            corners[3] matches Some(k) ==> k == (row0 + 1) * self.ncols() + (col0 + 1),
    {
        let r: i128 = row0 as i128;
        let c: i128 = col0 as i128;
        [
            self.cell_at_wide(r, c),
            self.cell_at_wide(r, c + 1),
            self.cell_at_wide(r + 1, c),
            self.cell_at_wide(r + 1, c + 1),
        ]
    }
}

/// A cell inside a `rows x cols` grid has a flat position inside the buffer,
/// within the chunk of its own row.
pub proof fn lemma_flat_index_in_grid(rows: int, cols: int, row: int, col: int)
    requires
        0 <= row < rows,
        0 <= col < cols,
    ensures
        row * cols <= flat_index(cols, row, col) < (row + 1) * cols,
        0 <= flat_index(cols, row, col) < rows * cols,
{
    assert((row + 1) * cols == row * cols + cols) by (nonlinear_arith);
    assert((row + 1) * cols <= rows * cols) by (nonlinear_arith)
        requires
            row + 1 <= rows,
            0 < cols,
    ;
    assert(0 <= row * cols) by (nonlinear_arith)
        requires
            0 <= row,
            0 < cols,
    ;
}

/// Distinct cells of a grid with `cols` columns have distinct flat
/// positions, so writing every cell of a grid touches each buffer slot once.
pub proof fn lemma_flat_index_injective(cols: int, row1: int, col1: int, row2: int, col2: int)
    requires
        0 <= col1 < cols,
        0 <= col2 < cols,
        flat_index(cols, row1, col1) == flat_index(cols, row2, col2),
    ensures
        row1 == row2,
        col1 == col2,
{
    if row1 < row2 {
        assert(row1 * cols + cols <= row2 * cols) by (nonlinear_arith)
            requires
                row1 + 1 <= row2,
                0 < cols,
        ;
    } else if row2 < row1 {
        assert(row2 * cols + cols <= row1 * cols) by (nonlinear_arith)
            requires
                row2 + 1 <= row1,
                0 < cols,
        ;
    }
}

/// Every slot of the flat buffer of a `rows x cols` grid holds a cell: slot
/// `k` is cell `[k / cols, k % cols]`.
pub proof fn lemma_flat_index_onto(rows: int, cols: int, k: int)
    requires
        0 <= rows,
        0 <= k < rows * cols,
    ensures
        0 <= k / cols < rows,
        0 <= k % cols < cols,
        flat_index(cols, k / cols, k % cols) == k,
{
    if cols <= 0 {
        assert(rows * cols <= 0) by (nonlinear_arith)
            requires
                0 <= rows,
                cols <= 0,
        ;
    }
    vstd::arithmetic::div_mod::lemma_fundamental_div_mod(k, cols);
    assert(k / cols < rows) by (nonlinear_arith)
        requires
            k == cols * (k / cols) + k % cols,
            0 <= k % cols,
            k < rows * cols,
            0 < cols,
    ;
    assert(0 <= k / cols) by (nonlinear_arith)
        requires
            k == cols * (k / cols) + k % cols,
            k % cols < cols,
            0 <= k,
            0 < cols,
    ;
    assert(flat_index(cols, k / cols, k % cols) == k) by (nonlinear_arith)
        requires
            k == cols * (k / cols) + k % cols,
    ;
}

/// A bilinear sample whose lower-left cell lies more than one cell outside
/// the grid (in either direction) reads no cell at all.
pub proof fn lemma_far_sample_reads_nothing(rows: int, cols: int, row0: int, col0: int)
    requires
        row0 < -1 || row0 >= rows || col0 < -1 || col0 >= cols,
    ensures
        cell_in_grid(rows, cols, row0, col0) is None,
        cell_in_grid(rows, cols, row0, col0 + 1) is None,
        cell_in_grid(rows, cols, row0 + 1, col0) is None,
        cell_in_grid(rows, cols, row0 + 1, col0 + 1) is None,
{
}

/// A bilinear sample whose four cells all lie inside the grid reads all four,
/// at the flat positions `k`, `k + 1`, `k + cols` and `k + cols + 1`.
pub proof fn lemma_interior_sample_reads_all(rows: int, cols: int, row0: int, col0: int)
    requires
        0 <= row0 && row0 + 1 < rows,
        0 <= col0 && col0 + 1 < cols,
    ensures
        cell_in_grid(rows, cols, row0, col0) == Some(flat_index(cols, row0, col0)),
        cell_in_grid(rows, cols, row0, col0 + 1) == Some(flat_index(cols, row0, col0) + 1),
        cell_in_grid(rows, cols, row0 + 1, col0) == Some(flat_index(cols, row0, col0) + cols),
        cell_in_grid(rows, cols, row0 + 1, col0 + 1) == Some(flat_index(cols, row0, col0) + cols + 1),
{
    assert((row0 + 1) * cols == row0 * cols + cols) by (nonlinear_arith);
}

} // verus!
