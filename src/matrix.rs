//! A dense row-major matrix of ones, and its sum taken in either traversal order.
use vstd::prelude::*;

verus! {

/// The shape of a matrix and its cells in row-major order.
pub struct MatrixView {
    pub rows: nat,
    pub cols: nat,
    pub cells: Seq<i8>,
}

/// A `rows` by `cols` matrix of `i8` ones, stored row by row.
pub struct Matrix {
    rows: usize,
    cols: usize,
    m: Vec<i8>,
}

impl View for Matrix {
    type V = MatrixView;

    closed spec fn view(&self) -> MatrixView {
        MatrixView { rows: self.rows as nat, cols: self.cols as nat, cells: self.m@ }
    }
}

/// The cell at (`row`, `col`) of a matrix with `cols` columns stored row by row.
pub open spec fn cell_index(cols: nat, row: int, col: int) -> int {
    row * cols + col
}

impl Matrix {
    /// One cell per position, and every cell is one.
    pub closed spec fn wf(&self) -> bool {
        &&& self.m@.len() == self.rows * self.cols
        &&& forall|i: int| 0 <= i < self.m@.len() ==> #[trigger] self.m@[i] == 1
    }

    pub fn new(rows: usize, cols: usize) -> (r: Self)
        requires
            rows * cols <= usize::MAX,
        ensures
            r.wf(),
            r@.rows == rows,
            r@.cols == cols,
            r@.cells == Seq::new((rows * cols) as nat, |i: int| 1i8),
    {
        let r = Matrix { rows, cols, m: vec![1; rows * cols] };
        assert(r@.cells =~= Seq::new((rows * cols) as nat, |i: int| 1i8));
        r
    }

    pub fn get(&self, row: usize, col: usize) -> (r: i8)
        requires
            self.wf(),
            row < self@.rows,
            col < self@.cols,
        ensures
            r == self@.cells[cell_index(self@.cols, row as int, col as int)],
            r == 1,
    {
        proof {
            lemma_cell_in_bounds(self.rows as int, self.cols as int, row as int, col as int);
            assert(self.m@.len() == self.m.len());
        }
        self.m[row * self.cols + col]
    }

    /// The number of bytes that the cells take.
    pub fn memsize(&self) -> (r: usize)
        requires
            self.wf(),
        ensures
            r == self@.cells.len(),
            r == self@.rows * self@.cols,
    {
        self.m.len()
    }

    pub fn rows(&self) -> (r: usize)
        ensures
            r == self@.rows,
    {
        self.rows
    }

    pub fn cols(&self) -> (r: usize)
        ensures
            r == self@.cols,
    {
        self.cols
    }
}

proof fn lemma_cell_in_bounds(rows: int, cols: int, row: int, col: int)
    requires
        0 <= row < rows,
        0 <= col < cols,
    ensures
        0 <= row * cols + col < rows * cols,
{
    assert((row + 1) * cols <= rows * cols) by (nonlinear_arith)
        requires
            0 <= row < rows,
            0 <= col < cols,
    ;
    assert(0 <= row * cols) by (nonlinear_arith)
        requires
            0 <= row,
            0 <= cols,
    ;
    assert((row + 1) * cols == row * cols + cols) by (nonlinear_arith);
}

/// Taking one more whole line of `len` cells stays within `lines * len`.
proof fn lemma_next_line(lines: int, len: int, done: int)
    requires
        0 <= done < lines,
        0 <= len,
    ensures
        (done + 1) * len <= lines * len,
        (done + 1) * len == done * len + len,
{
    assert((done + 1) * len <= lines * len) by (nonlinear_arith)
        requires
            0 <= done < lines,
            0 <= len,
    ;
    assert((done + 1) * len == done * len + len) by (nonlinear_arith);
}

/// The sum of all cells, visiting them row by row when `row_major` holds and
/// column by column otherwise; both orders give the number of cells.
pub fn sum_matrix(m: &Matrix, row_major: bool) -> (r: i64)
    requires
        m.wf(),
        m@.rows * m@.cols <= i64::MAX,
    ensures
        r == m@.rows * m@.cols,
{
    proof {
        assert(m@.cols * m@.rows == m@.rows * m@.cols) by (nonlinear_arith);
    }
    let mut sum: i64 = 0;
    let rows = m.rows();
    let cols = m.cols();
    if row_major {
        let mut r: usize = 0;
        while r < rows
            invariant
                m.wf(),
                rows == m@.rows,
                cols == m@.cols,
                rows * cols <= i64::MAX,
                r <= rows,
                sum == r * cols,
            decreases rows - r,
        {
            proof {
                lemma_next_line(rows as int, cols as int, r as int);
            }
            let mut c: usize = 0;
            while c < cols
                invariant
                    m.wf(),
                    rows == m@.rows,
                    cols == m@.cols,
                    r < rows,
                    c <= cols,
                    (r + 1) * cols <= i64::MAX,
                    (r + 1) * cols == r * cols + cols,
                    sum == r * cols + c,
                decreases cols - c,
            {
                sum += m.get(r, c) as i64;
                c += 1;
            }
            r += 1;
        }
    } else {
        let mut c: usize = 0;
        while c < cols
            invariant
                m.wf(),
                rows == m@.rows,
                cols == m@.cols,
                cols * rows <= i64::MAX,
                c <= cols,
                sum == c * rows,
            decreases cols - c,
        {
            proof {
                lemma_next_line(cols as int, rows as int, c as int);
            }
            let mut r: usize = 0;
            while r < rows
                invariant
                    m.wf(),
                    rows == m@.rows,
                    cols == m@.cols,
                    c < cols,
                    r <= rows,
                    (c + 1) * rows <= i64::MAX,
                    (c + 1) * rows == c * rows + rows,
                    sum == c * rows + r,
                decreases rows - r,
            {
                sum += m.get(r, c) as i64;
                r += 1;
            }
            c += 1;
        }
    }
    sum
}

} // verus!
