//! A dense row-major matrix.
use vstd::prelude::*;

verus! {

/// A dense `rows x cols` matrix stored in row-major order.
#[derive(Clone, Debug)]
pub struct Matrix<T> {
    rows: usize,
    cols: usize,
    data: Vec<T>,
}

impl<T> Matrix<T> {
    /// The number of rows.
    pub closed spec fn nrows(&self) -> usize {
        self.rows
    }

    /// The number of columns.
    pub closed spec fn ncols(&self) -> usize {
        self.cols
    }

    /// The entry at row `i`, column `j`.
    pub closed spec fn entry(&self, i: int, j: int) -> T {
        self.data@[i * self.cols + j]
    }

    /// The storage holds exactly `rows * cols` entries.
    pub closed spec fn wf(&self) -> bool {
        self.data@.len() == self.rows * self.cols
    }

    /// Builds a matrix from its entries, listed row by row.
    pub fn new(rows: usize, cols: usize, data: Vec<T>) -> (r: Matrix<T>)
        requires
            data@.len() == rows * cols,
        ensures
            r.wf(),
            r.nrows() == rows,
            r.ncols() == cols,
            forall|i: int, j: int|
                0 <= i < rows && 0 <= j < cols ==> #[trigger] r.entry(i, j) == data@[i * cols + j],
    {
        Matrix { rows, cols, data }
    }

    /// The number of rows.
    pub fn rows(&self) -> (r: usize)
        ensures
            r == self.nrows(),
    {
        self.rows
    }

    /// The number of columns.
    pub fn cols(&self) -> (r: usize)
        ensures
            r == self.ncols(),
    {
        self.cols
    }

    proof fn lemma_index(&self, i: int, j: int)
        requires
            self.wf(),
            0 <= i < self.rows,
            0 <= j < self.cols,
        ensures
            0 <= i * self.cols + j < self.data@.len(),
    {
        assert(i * self.cols + j < (i + 1) * self.cols) by (nonlinear_arith)
            requires
                j < self.cols,
        ;
        assert((i + 1) * self.cols <= self.rows * self.cols) by (nonlinear_arith)
            requires
                i + 1 <= self.rows,
        ;
        assert(0 <= i * self.cols) by (nonlinear_arith)
            requires
                0 <= i,
        ;
    }

    /// The position of cell `(i, j)` in the row-major storage.
    fn offset(&self, i: usize, j: usize) -> (k: usize)
        requires
            self.wf(),
            i < self.rows,
            j < self.cols,
        ensures
            k == i * self.cols + j,
            k < self.data@.len(),
    {
        proof {
            self.lemma_index(i as int, j as int);
        }
        // The storage length is a `usize`, and the offset lies below it.
        let len = self.data.len();
        assert(i * self.cols + j < len);
        i * self.cols + j
    }

    /// A reference to the entry at row `i`, column `j`.
    pub fn get(&self, i: usize, j: usize) -> (r: &T)
        requires
            self.wf(),
            i < self.nrows(),
            j < self.ncols(),
        ensures
            *r == self.entry(i as int, j as int),
    {
        let k = self.offset(i, j);
        &self.data[k]
    }

    /// Replaces the entry at row `i`, column `j`.
    pub fn set(&mut self, i: usize, j: usize, v: T)
        requires
            old(self).wf(),
            i < old(self).nrows(),
            j < old(self).ncols(),
        ensures
            final(self).wf(),
            final(self).nrows() == old(self).nrows(),
            final(self).ncols() == old(self).ncols(),
            final(self).entry(i as int, j as int) == v,
            forall|a: int, b: int|
                0 <= a < final(self).nrows() && 0 <= b < final(self).ncols() && (a != i || b != j)
                    ==> #[trigger] final(self).entry(a, b) == old(self).entry(a, b),
    {
        let k = self.offset(i, j);
        self.data.set(k, v);
        proof {
            assert forall|a: int, b: int|
                0 <= a < self.nrows() && 0 <= b < self.ncols() && (a != i || b != j)
                    implies #[trigger] self.entry(a, b) == old(self).entry(a, b) by {
                self.lemma_index(a, b);
                Self::lemma_distinct_cells(a, b, i as int, j as int, self.cols as int);
            }
        }
    }

    proof fn lemma_distinct_cells(a: int, b: int, i: int, j: int, c: int)
        requires
            0 <= b < c,
            0 <= j < c,
            a != i || b != j,
        ensures
            a * c + b != i * c + j,
    {
        if a == i {
        } else if a < i {
            assert((a + 1) * c <= i * c) by (nonlinear_arith)
                requires
                    a + 1 <= i, 0 <= c,
            ;
            assert((a + 1) * c == a * c + c) by (nonlinear_arith);
        } else {
            assert((i + 1) * c <= a * c) by (nonlinear_arith)
                requires
                    i + 1 <= a, 0 <= c,
            ;
            assert((i + 1) * c == i * c + c) by (nonlinear_arith);
        }
    }
}

impl<T: Copy> Matrix<T> {
    /// An entry-for-entry copy of this matrix.
    pub fn copy_of(&self) -> (r: Matrix<T>)
        requires
            self.wf(),
        ensures
            r.wf(),
            r.nrows() == self.nrows(),
            r.ncols() == self.ncols(),
            forall|i: int, j: int| #[trigger] r.entry(i, j) == self.entry(i, j),
    {
        let mut data: Vec<T> = Vec::new();
        let mut k: usize = 0;
        while k < self.data.len()
            invariant
                k <= self.data@.len(),
                data@ == self.data@.subrange(0, k as int),
            decreases self.data@.len() - k,
        {
            data.push(self.data[k]);
            k = k + 1;
            assert(data@ =~= self.data@.subrange(0, k as int));
        }
        assert(data@ =~= self.data@);
        Matrix { rows: self.rows, cols: self.cols, data }
    }

    /// Sets every entry strictly above the diagonal to `zero`, leaving the
    /// diagonal and the lower triangle as they were.
    pub fn nullify_upper_triangular_part(&mut self, zero: T)
        requires
            old(self).wf(),
        ensures
            final(self).wf(),
            final(self).nrows() == old(self).nrows(),
            final(self).ncols() == old(self).ncols(),
            forall|i: int, j: int|
                0 <= i < final(self).nrows() && 0 <= j < final(self).ncols() ==> #[trigger] final(self).entry(i, j) == (if j > i {
                    zero
                } else {
                    old(self).entry(i, j)
                }),
    {
        let ghost orig = *self;
        let rows = self.rows;
        let cols = self.cols;
        let mut i: usize = 0;
        while i < rows
            invariant
                self.wf(),
                self.nrows() == rows,
                self.ncols() == cols,
                orig.wf(),
                orig.nrows() == rows,
                orig.ncols() == cols,
                i <= rows,
                forall|a: int, b: int|
                    0 <= a < rows && 0 <= b < cols ==> #[trigger] self.entry(a, b) == (if a < i && b > a {
                        zero
                    } else {
                        orig.entry(a, b)
                    }),
            decreases rows - i,
        {
            let mut j: usize = i + 1;
            while j < cols
                invariant
                    self.wf(),
                    self.nrows() == rows,
                    self.ncols() == cols,
                    i < rows,
                    i + 1 <= j,
                    forall|a: int, b: int|
                        0 <= a < rows && 0 <= b < cols ==> #[trigger] self.entry(a, b) == (if (a < i && b > a) || (a == i && i < b < j) {
                            zero
                        } else {
                            orig.entry(a, b)
                        }),
                decreases cols - j,
            {
                self.set(i, j, zero);
                j = j + 1;
            }
            i = i + 1;
        }
    }
}

} // verus!
